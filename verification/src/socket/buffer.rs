use crate::gametypes::error::AscendingError;
use bytey_byte_buffer::byte_buffer::ByteBuffer;
use bytey_byte_buffer::error::ByteBufferError;
use mmap_bytey_byte_buffer::byte_buffer::MByteBuffer;
use mmap_bytey_byte_buffer::error::MByteBufferError;
use vstd::bytes::*;
use vstd::prelude::*;
use vstd::utf8::*;

verus! {

/// A mapped buffer of `mmap_bytey_byte_buffer`: bytes with a cursor, in a block of fixed size.
/// Opaque to the proofs, which speak of it through [`mbuf_bytes`] and [`mbuf_cursor`].
#[verifier::external_type_specification]
#[verifier::external_body]
pub struct ExMByteBuffer(MByteBuffer);

/// The bytes a mapped buffer holds, from its start to its length.
pub uninterp spec fn mbuf_bytes(buffer: MByteBuffer) -> Seq<u8>;

/// The position at which a mapped buffer reads and writes next.
pub uninterp spec fn mbuf_cursor(buffer: MByteBuffer) -> nat;

/// The number of bytes a mapped buffer can hold: the size of the block that
/// `mmap_bytey_byte_buffer` hands to each buffer.
pub const MBUF_CAPACITY: usize = 1536;

/// The bytes that result from writing `src` over `bytes` at `cursor`: what lies
/// under `src` is replaced, and the sequence grows where `src` runs past its end.
pub open spec fn write_at(bytes: Seq<u8>, cursor: int, src: Seq<u8>) -> Seq<u8> {
    let end = cursor + src.len();
    if end < bytes.len() {
        bytes.subrange(0, cursor) + src + bytes.subrange(end, bytes.len() as int)
    } else {
        bytes.subrange(0, cursor) + src
    }
}

/// `MByteBuffer::new`. Claims that a buffer that was handed out is empty, with
/// its cursor at the start. Nothing is claimed of when the mapping succeeds.
#[verifier::external_body]
pub(crate) fn mbuf_new() -> (r: Result<MByteBuffer, MByteBufferError>)
    ensures
        r matches Ok(b) ==> mbuf_bytes(b) == Seq::<u8>::empty() && mbuf_cursor(b) == 0,
{
    MByteBuffer::new()
}

/// `MByteBuffer::length`. Claims the number of bytes held, and what the buffer
/// keeps true of itself: the cursor is within the bytes, the bytes within the block.
#[verifier::external_body]
pub(crate) fn mbuf_length(buffer: &MByteBuffer) -> (n: usize)
    ensures
        n == mbuf_bytes(*buffer).len(),
        mbuf_cursor(*buffer) <= n <= MBUF_CAPACITY,
{
    buffer.length()
}

/// `MByteBuffer::cursor`. Claims the cursor's position, which is within the bytes.
#[verifier::external_body]
pub(crate) fn mbuf_cursor_pos(buffer: &MByteBuffer) -> (n: usize)
    ensures
        n == mbuf_cursor(*buffer),
        n <= mbuf_bytes(*buffer).len() <= MBUF_CAPACITY,
{
    buffer.cursor()
}

/// `MByteBuffer::write_slice`. Claims that the write succeeds exactly when it
/// ends within the block; that it then replaces or appends at the cursor and
/// moves the cursor behind what was written; and that a refused write changes nothing.
#[verifier::external_body]
pub(crate) fn mbuf_write_slice(buffer: &mut MByteBuffer, source: &[u8]) -> (r: Result<
    (),
    MByteBufferError,
>)
    ensures
        r is Ok <==> mbuf_cursor(*old(buffer)) + source@.len() <= MBUF_CAPACITY,
        r is Ok ==> mbuf_bytes(*final(buffer)) == write_at(
            mbuf_bytes(*old(buffer)),
            mbuf_cursor(*old(buffer)) as int,
            source@,
        ) && mbuf_cursor(*final(buffer)) == mbuf_cursor(*old(buffer)) + source@.len(),
        r is Err ==> mbuf_bytes(*final(buffer)) == mbuf_bytes(*old(buffer)) && mbuf_cursor(
            *final(buffer),
        ) == mbuf_cursor(*old(buffer)),
{
    match buffer.write_slice(source) {
        Ok(_) => Ok(()),
        Err(e) => Err(e),
    }
}

/// `MByteBuffer::read_slice`. Claims that the read succeeds exactly when `size`
/// bytes lie between the cursor and the end; that it then hands out those
/// bytes and moves the cursor behind them; and that a refused read changes nothing.
/// The sum of cursor and `size` must not overflow, as the buffer adds them unchecked.
#[verifier::external_body]
pub(crate) fn mbuf_read_slice(buffer: &mut MByteBuffer, size: usize) -> (r: Result<
    Vec<u8>,
    MByteBufferError,
>)
    requires
        mbuf_cursor(*old(buffer)) + size <= usize::MAX,
    ensures
        r is Ok <==> mbuf_cursor(*old(buffer)) + size <= mbuf_bytes(*old(buffer)).len(),
        mbuf_bytes(*final(buffer)) == mbuf_bytes(*old(buffer)),
        r matches Ok(v) ==> v@ == mbuf_bytes(*old(buffer)).subrange(
            mbuf_cursor(*old(buffer)) as int,
            mbuf_cursor(*old(buffer)) + size,
        ) && mbuf_cursor(*final(buffer)) == mbuf_cursor(*old(buffer)) + size,
        r is Err ==> mbuf_cursor(*final(buffer)) == mbuf_cursor(*old(buffer)),
{
    match buffer.read_slice(size) {
        Ok(bytes) => Ok(bytes.to_vec()),
        Err(e) => Err(e),
    }
}

/// `MByteBuffer::move_cursor`. Claims that the move succeeds exactly when the
/// target is within the bytes, that the bytes stay, and that a refused move
/// leaves the cursor where it was.
#[verifier::external_body]
pub(crate) fn mbuf_move_cursor(buffer: &mut MByteBuffer, location: usize) -> (r: Result<
    (),
    MByteBufferError,
>)
    ensures
        r is Ok <==> location <= mbuf_bytes(*old(buffer)).len(),
        mbuf_bytes(*final(buffer)) == mbuf_bytes(*old(buffer)),
        r is Ok ==> mbuf_cursor(*final(buffer)) == location,
        r is Err ==> mbuf_cursor(*final(buffer)) == mbuf_cursor(*old(buffer)),
{
    match buffer.move_cursor(location) {
        Ok(_) => Ok(()),
        Err(e) => Err(e),
    }
}

/// `MByteBuffer::move_cursor_to_start`. Claims that the cursor is then at the
/// start and the bytes are as before.
#[verifier::external_body]
pub(crate) fn mbuf_rewind(buffer: &mut MByteBuffer)
    ensures
        mbuf_bytes(*final(buffer)) == mbuf_bytes(*old(buffer)),
        mbuf_cursor(*final(buffer)) == 0,
{
    buffer.move_cursor_to_start();
}

/// `std::str::from_utf8`. Claims that the bytes are accepted exactly when they
/// are well-formed UTF-8, and that the text handed out is what they encode.
#[verifier::external_body]
pub(crate) fn str_from_utf8(bytes: &[u8]) -> (r: Option<&str>)
    ensures
        r is Some <==> valid_utf8(bytes@),
        r matches Some(s) ==> s@ == decode_utf8(bytes@),
{
    match std::str::from_utf8(bytes) {
        Ok(s) => Some(s),
        Err(_) => None,
    }
}

/// Writing `first` and then `second` behind it is writing the two as one.
pub proof fn lemma_write_at_twice(bytes: Seq<u8>, cursor: int, first: Seq<u8>, second: Seq<u8>)
    requires
        0 <= cursor <= bytes.len(),
    ensures
        write_at(write_at(bytes, cursor, first), cursor + first.len(), second) == write_at(
            bytes,
            cursor,
            first + second,
        ),
{
    assert(write_at(write_at(bytes, cursor, first), cursor + first.len(), second) =~= write_at(
        bytes,
        cursor,
        first + second,
    ));
}

/// Writing at the end of the bytes appends.
pub proof fn lemma_write_at_end(bytes: Seq<u8>, src: Seq<u8>)
    ensures
        write_at(bytes, bytes.len() as int, src) == bytes + src,
{
    assert(write_at(bytes, bytes.len() as int, src) =~= bytes + src);
}

/// Whether `n` more bytes fit behind the cursor of `buffer`.
pub open spec fn mbuf_fits(buffer: MByteBuffer, n: nat) -> bool {
    mbuf_cursor(buffer) + n <= MBUF_CAPACITY
}

/// `after` is `before` with `src` written at its cursor.
pub open spec fn mbuf_wrote(before: MByteBuffer, after: MByteBuffer, src: Seq<u8>) -> bool {
    &&& mbuf_bytes(after) == write_at(mbuf_bytes(before), mbuf_cursor(before) as int, src)
    &&& mbuf_cursor(after) == mbuf_cursor(before) + src.len()
}

/// `after` holds the bytes of `before`, with the cursor at the same place.
pub open spec fn mbuf_untouched(before: MByteBuffer, after: MByteBuffer) -> bool {
    &&& mbuf_bytes(after) == mbuf_bytes(before)
    &&& mbuf_cursor(after) == mbuf_cursor(before)
}

/// `after` holds the bytes of `before`, with the cursor `n` bytes further on.
pub open spec fn mbuf_advanced(before: MByteBuffer, after: MByteBuffer, n: nat) -> bool {
    &&& mbuf_bytes(after) == mbuf_bytes(before)
    &&& mbuf_cursor(after) == mbuf_cursor(before) + n
}

/// The error is one that the mapped buffer itself reported.
pub open spec fn is_mbuf_fault<T>(r: Result<T, AscendingError>) -> bool {
    r matches Err(AscendingError::MByteyError { .. })
}

/// The wire form of a signed 64-bit number: its two's complement, little-endian.
pub open spec fn i64_bytes(value: i64) -> Seq<u8> {
    spec_u64_to_le_bytes(value as u64)
}

/// The wire form of a truth value: one byte, 1 for true and 0 for false.
pub open spec fn bool_bytes(value: bool) -> Seq<u8> {
    seq![if value { 1u8 } else { 0u8 }]
}

/// The wire form of a text: the number of its UTF-8 bytes as a little-endian
/// 64-bit number, then those bytes.
pub open spec fn str_bytes(text: Seq<char>) -> Seq<u8> {
    spec_u64_to_le_bytes(encode_utf8(text).len() as u64) + encode_utf8(text)
}

/// The eight zero bytes that every frame begins with until it is finished.
pub open spec fn blank_header() -> Seq<u8> {
    spec_u64_to_le_bytes(0)
}

/// The bytes a counted frame begins with until it is finished: a blank header,
/// the frame kind as a little-endian 16-bit number, and eight zero bytes for the count.
pub open spec fn blank_counted_header(packet_id: u16) -> Seq<u8> {
    spec_u64_to_le_bytes(0) + spec_u16_to_le_bytes(packet_id) + spec_u64_to_le_bytes(0)
}

/// Writes `source` at the cursor. Succeeds exactly when it fits in the buffer.
pub(crate) fn mbuf_write_bytes(buffer: &mut MByteBuffer, source: &[u8]) -> (r: Result<(), AscendingError>)
    ensures
        r is Ok <==> mbuf_fits(*old(buffer), source@.len()),
        r is Ok ==> mbuf_wrote(*old(buffer), *final(buffer), source@),
        r is Err ==> mbuf_untouched(*old(buffer), *final(buffer)) && is_mbuf_fault(r),
{
    match mbuf_write_slice(buffer, source) {
        Ok(()) => Ok(()),
        Err(error) => Err(AscendingError::MByteyError { error }),
    }
}

/// Writes a 16-bit number at the cursor, little-endian.
pub(crate) fn mbuf_write_u16(buffer: &mut MByteBuffer, value: u16) -> (r: Result<(), AscendingError>)
    ensures
        r is Ok <==> mbuf_fits(*old(buffer), 2),
        r is Ok ==> mbuf_wrote(*old(buffer), *final(buffer), spec_u16_to_le_bytes(value)),
        r is Err ==> mbuf_untouched(*old(buffer), *final(buffer)) && is_mbuf_fault(r),
{
    let bytes = u16_to_le_bytes(value);
    mbuf_write_bytes(buffer, bytes.as_slice())
}

/// Writes a 64-bit number at the cursor, little-endian.
pub(crate) fn mbuf_write_u64(buffer: &mut MByteBuffer, value: u64) -> (r: Result<(), AscendingError>)
    ensures
        r is Ok <==> mbuf_fits(*old(buffer), 8),
        r is Ok ==> mbuf_wrote(*old(buffer), *final(buffer), spec_u64_to_le_bytes(value)),
        r is Err ==> mbuf_untouched(*old(buffer), *final(buffer)) && is_mbuf_fault(r),
{
    let bytes = u64_to_le_bytes(value);
    mbuf_write_bytes(buffer, bytes.as_slice())
}

/// The `n` bytes at `cursor`, where that many are there.
pub open spec fn bytes_at(bytes: Seq<u8>, cursor: int, n: int) -> Option<Seq<u8>> {
    if cursor + n <= bytes.len() {
        Some(bytes.subrange(cursor, cursor + n))
    } else {
        None
    }
}

/// The byte at `cursor`, where there is one.
pub open spec fn u8_at(bytes: Seq<u8>, cursor: int) -> Option<u8> {
    if cursor + 1 <= bytes.len() {
        Some(bytes[cursor])
    } else {
        None
    }
}

/// The little-endian 16-bit number at `cursor`, where two bytes are there.
pub open spec fn u16_at(bytes: Seq<u8>, cursor: int) -> Option<u16> {
    if cursor + 2 <= bytes.len() {
        Some(spec_u16_from_le_bytes(bytes.subrange(cursor, cursor + 2)))
    } else {
        None
    }
}

/// The little-endian 64-bit number at `cursor`, where eight bytes are there.
pub open spec fn u64_at(bytes: Seq<u8>, cursor: int) -> Option<u64> {
    if cursor + 8 <= bytes.len() {
        Some(spec_u64_from_le_bytes(bytes.subrange(cursor, cursor + 8)))
    } else {
        None
    }
}

/// The text at `cursor` and the position behind it, where a whole text is
/// there: a 64-bit length and that many bytes. Bytes that are not well-formed
/// UTF-8 stand for the empty text.
pub open spec fn str_at(bytes: Seq<u8>, cursor: int) -> Option<(Seq<char>, int)> {
    match u64_at(bytes, cursor) {
        None => None,
        Some(size) => if size == 0 {
            Some((Seq::<char>::empty(), cursor + 8))
        } else if cursor + 8 + size > bytes.len() {
            None
        } else {
            let body = bytes.subrange(cursor + 8, cursor + 8 + size);
            Some((if valid_utf8(body) { decode_utf8(body) } else { Seq::<char>::empty() },
                cursor + 8 + size))
        },
    }
}

/// Reads `size` bytes at the cursor. Fails, leaving the cursor, when fewer are there.
pub(crate) fn mbuf_read_bytes(buffer: &mut MByteBuffer, size: usize) -> (r: Result<Vec<u8>, AscendingError>)
    ensures
        mbuf_bytes(*final(buffer)) == mbuf_bytes(*old(buffer)),
        match bytes_at(mbuf_bytes(*old(buffer)), mbuf_cursor(*old(buffer)) as int, size as int) {
            Some(found) => r matches Ok(v) && v@ == found && mbuf_advanced(
                *old(buffer),
                *final(buffer),
                size as nat,
            ),
            None => is_mbuf_fault(r) && mbuf_untouched(*old(buffer), *final(buffer)),
        },
{
    let cursor = mbuf_cursor_pos(buffer);
    // The buffer adds cursor and size unchecked; a size beyond what that sum can
    // hold is read as the largest that it can, which fails in the same way.
    let ask = if size > usize::MAX - cursor {
        usize::MAX - cursor
    } else {
        size
    };
    match mbuf_read_slice(buffer, ask) {
        Ok(bytes) => Ok(bytes),
        Err(error) => Err(AscendingError::MByteyError { error }),
    }
}

/// Reads a little-endian 64-bit number at the cursor.
pub(crate) fn mbuf_read_u64(buffer: &mut MByteBuffer) -> (r: Result<u64, AscendingError>)
    ensures
        mbuf_bytes(*final(buffer)) == mbuf_bytes(*old(buffer)),
        match u64_at(mbuf_bytes(*old(buffer)), mbuf_cursor(*old(buffer)) as int) {
            Some(found) => r == Ok::<u64, AscendingError>(found) && mbuf_advanced(
                *old(buffer),
                *final(buffer),
                8,
            ),
            None => is_mbuf_fault(r) && mbuf_untouched(*old(buffer), *final(buffer)),
        },
{
    match mbuf_read_bytes(buffer, 8) {
        Ok(bytes) => Ok(u64_from_le_bytes(bytes.as_slice())),
        Err(e) => Err(e),
    }
}

/// The frame codec on top of a mapped buffer.
pub trait MByteBufferExt: Sized {
    /// A buffer that holds a blank length header, ready for the payload.
    fn new_packet() -> Result<MByteBuffer, AscendingError>;

    /// A buffer that holds a blank length header, the frame kind and a blank count.
    fn new_packet_with_count(packet_id: u16) -> Result<MByteBuffer, AscendingError>;

    /// Writes a text at the cursor: its length in bytes, then the bytes.
    fn write_str(&mut self, str: &str) -> Result<&mut MByteBuffer, AscendingError>;

    /// Reads a text at the cursor.
    fn read_str(&mut self) -> Result<String, AscendingError>;

    /// Fills in the length header and rewinds the buffer for sending.
    fn finish(&mut self) -> Result<&mut MByteBuffer, AscendingError>;

    /// Fills in the length header and the count, and rewinds the buffer for sending.
    fn finish_with_count(&mut self, count: u64) -> Result<&mut MByteBuffer, AscendingError>;
}

impl MByteBufferExt for MByteBuffer {
    fn new_packet() -> (r: Result<MByteBuffer, AscendingError>)
        ensures
            r matches Ok(b) ==> mbuf_bytes(b) == blank_header() && mbuf_cursor(b) == 8,
            r is Err ==> is_mbuf_fault(r),
    {
        let mut buffer = match mbuf_new() {
            Ok(buffer) => buffer,
            Err(error) => return Err(AscendingError::MByteyError { error }),
        };
        proof {
            lemma_auto_spec_u64_to_from_le_bytes();
        }
        match mbuf_write_u64(&mut buffer, 0) {
            Ok(()) => {},
            Err(e) => return Err(e),
        }
        assert(mbuf_bytes(buffer) =~= blank_header());
        Ok(buffer)
    }

    fn new_packet_with_count(packet_id: u16) -> (r: Result<MByteBuffer, AscendingError>)
        ensures
            r matches Ok(b) ==> mbuf_bytes(b) == blank_counted_header(packet_id) && mbuf_cursor(b)
                == 18,
            r is Err ==> is_mbuf_fault(r),
    {
        let mut buffer = match Self::new_packet() {
            Ok(buffer) => buffer,
            Err(e) => return Err(e),
        };
        proof {
            lemma_auto_spec_u64_to_from_le_bytes();
            lemma_auto_spec_u16_to_from_le_bytes();
        }
        match mbuf_write_u16(&mut buffer, packet_id) {
            Ok(()) => {},
            Err(e) => return Err(e),
        }
        match mbuf_write_u64(&mut buffer, 0) {
            Ok(()) => {},
            Err(e) => return Err(e),
        }
        assert(mbuf_bytes(buffer) =~= blank_counted_header(packet_id));
        Ok(buffer)
    }

    #[inline]
    fn write_str(&mut self, str: &str) -> (r: Result<&mut MByteBuffer, AscendingError>)
        ensures
            r is Ok <==> mbuf_fits(*old(self), 8 + encode_utf8(str@).len()),
            r matches Ok(b) ==> *final(b) == *final(self) && mbuf_bytes(*b) == write_at(
                mbuf_bytes(*old(self)),
                mbuf_cursor(*old(self)) as int,
                str_bytes(str@),
            ) && mbuf_cursor(*b) == mbuf_cursor(*old(self)) + 8 + encode_utf8(str@).len(),
            r is Err ==> is_mbuf_fault(r) && if mbuf_fits(*old(self), 8) {
                mbuf_wrote(
                    *old(self),
                    *final(self),
                    spec_u64_to_le_bytes(encode_utf8(str@).len() as u64),
                )
            } else {
                mbuf_untouched(*old(self), *final(self))
            },
    {
        let bytestr = str.as_bytes();
        proof {
            lemma_auto_spec_u64_to_from_le_bytes();
        }
        let ghost start = *self;
        let _ = mbuf_length(self);
        match mbuf_write_u64(self, bytestr.len() as u64) {
            Ok(()) => {},
            Err(e) => return Err(e),
        }
        let _ = mbuf_length(self);
        match mbuf_write_bytes(self, bytestr) {
            Ok(()) => {},
            Err(e) => return Err(e),
        }
        proof {
            lemma_write_at_twice(
                mbuf_bytes(start),
                mbuf_cursor(start) as int,
                spec_u64_to_le_bytes(bytestr@.len() as u64),
                bytestr@,
            );
        }
        Ok(self)
    }

    #[inline]
    fn read_str(&mut self) -> (r: Result<String, AscendingError>)
        ensures
            mbuf_bytes(*final(self)) == mbuf_bytes(*old(self)),
            match str_at(mbuf_bytes(*old(self)), mbuf_cursor(*old(self)) as int) {
                Some((text, end)) => r matches Ok(s) && s@ == text && mbuf_cursor(*final(self))
                    == end,
                None => is_mbuf_fault(r) && mbuf_cursor(*final(self)) == if mbuf_cursor(
                    *old(self),
                ) + 8 <= mbuf_bytes(*old(self)).len() {
                    mbuf_cursor(*old(self)) + 8
                } else {
                    mbuf_cursor(*old(self))
                },
            },
    {
        let size = match mbuf_read_u64(self) {
            Ok(size) => size,
            Err(e) => return Err(e),
        };
        if size == 0 {
            return Ok(String::new());
        }
        let wanted: usize = if size > usize::MAX as u64 {
            usize::MAX
        } else {
            size as usize
        };
        let _ = mbuf_length(self);
        let bytes = match mbuf_read_bytes(self, wanted) {
            Ok(bytes) => bytes,
            Err(e) => return Err(e),
        };
        match str_from_utf8(bytes.as_slice()) {
            Some(text) => Ok(text.to_owned()),
            None => Ok(String::new()),
        }
    }

    #[inline]
    fn finish(&mut self) -> (r: Result<&mut MByteBuffer, AscendingError>)
        ensures
            r is Ok <==> mbuf_bytes(*old(self)).len() >= 8,
            r matches Ok(b) ==> *final(b) == *final(self) && mbuf_bytes(*b) == finished(
                mbuf_bytes(*old(self)),
            ) && mbuf_cursor(*b) == 0,
            r is Err ==> r matches Err(AscendingError::InvalidPacket),
            r is Err ==> mbuf_untouched(*old(self), *final(self)),
    {
        let length = mbuf_length(self);
        if length < 8 {
            return Err(AscendingError::InvalidPacket);
        }
        proof {
            lemma_auto_spec_u64_to_from_le_bytes();
        }
        mbuf_rewind(self);
        match mbuf_write_u64(self, (length - 8) as u64) {
            Ok(()) => {},
            Err(e) => return Err(e),
        }
        mbuf_rewind(self);
        assert(mbuf_bytes(*self) =~= finished(mbuf_bytes(*old(self))));
        Ok(self)
    }

    #[inline]
    fn finish_with_count(&mut self, count: u64) -> (r: Result<&mut MByteBuffer, AscendingError>)
        ensures
            r is Ok <==> mbuf_bytes(*old(self)).len() >= 18,
            r matches Ok(b) ==> *final(b) == *final(self) && mbuf_bytes(*b) == finished_with_count(
                mbuf_bytes(*old(self)),
                count,
            ) && mbuf_cursor(*b) == 0,
            r is Err ==> r matches Err(AscendingError::InvalidPacket),
            r is Err ==> mbuf_untouched(*old(self), *final(self)),
    {
        let length = mbuf_length(self);
        if length < 18 {
            return Err(AscendingError::InvalidPacket);
        }
        proof {
            lemma_auto_spec_u64_to_from_le_bytes();
        }
        mbuf_rewind(self);
        match mbuf_write_u64(self, (length - 8) as u64) {
            Ok(()) => {},
            Err(e) => return Err(e),
        }
        match mbuf_move_cursor(self, 10) {
            Ok(()) => {},
            Err(error) => return Err(AscendingError::MByteyError { error }),
        }
        match mbuf_write_u64(self, count) {
            Ok(()) => {},
            Err(e) => return Err(e),
        }
        mbuf_rewind(self);
        assert(mbuf_bytes(*self) =~= finished_with_count(mbuf_bytes(*old(self)), count));
        Ok(self)
    }
}

/// The bytes of a finished frame: those of `bytes`, with the number of bytes
/// behind the header written into the header.
pub open spec fn finished(bytes: Seq<u8>) -> Seq<u8> {
    write_at(bytes, 0, spec_u64_to_le_bytes((bytes.len() - 8) as u64))
}

/// The bytes of a finished counted frame: those of a finished frame, with
/// `count` written behind the header and the frame kind.
pub open spec fn finished_with_count(bytes: Seq<u8>, count: u64) -> Seq<u8> {
    write_at(finished(bytes), 10, spec_u64_to_le_bytes(count))
}

/// A text that was written is read back as it was: after its wire form has
/// been written at `cursor`, over any bytes, the text found at `cursor` is
/// `text`, and the position behind it is the end of what was written.
pub proof fn law_str_round_trip(bytes: Seq<u8>, cursor: int, text: Seq<char>)
    requires
        0 <= cursor <= bytes.len(),
        encode_utf8(text).len() <= u64::MAX,
    ensures
        str_at(write_at(bytes, cursor, str_bytes(text)), cursor) == Some(
            (text, cursor + 8 + encode_utf8(text).len()),
        ),
{
    let body = encode_utf8(text);
    let size = body.len() as u64;
    let written = write_at(bytes, cursor, str_bytes(text));
    lemma_auto_spec_u64_to_from_le_bytes();
    encode_utf8_valid_utf8(text);
    encode_utf8_decode_utf8(text);
    assert(written.subrange(cursor, cursor + 8) =~= spec_u64_to_le_bytes(size));
    if size == 0 {
        assert(body =~= Seq::<u8>::empty());
        assert(decode_utf8(Seq::<u8>::empty()) =~= Seq::<char>::empty());
        assert(text =~= Seq::<char>::empty());
    } else {
        assert(written.subrange(cursor + 8, cursor + 8 + size) =~= body);
    }
}

/// Bytes that are not well-formed UTF-8 are read as the empty text, and the
/// read still moves behind them.
pub proof fn law_malformed_str_is_empty(bytes: Seq<u8>, cursor: int, size: u64)
    requires
        0 <= cursor,
        size > 0,
        cursor + 8 + size <= bytes.len(),
        u64_at(bytes, cursor) == Some(size),
        !valid_utf8(bytes.subrange(cursor + 8, cursor + 8 + size)),
    ensures
        str_at(bytes, cursor) == Some((Seq::<char>::empty(), cursor + 8 + size)),
{
}

/// The header of a finished frame holds the length of its payload: a frame
/// that was begun with a blank header, filled with `payload` and finished
/// starts with eight bytes that decode to the payload's length, and the
/// payload follows them unchanged.
pub proof fn law_finish_header(payload: Seq<u8>)
    requires
        payload.len() <= u64::MAX,
    ensures
        u64_at(finished(blank_header() + payload), 0) == Some(payload.len() as u64),
        finished(blank_header() + payload) == spec_u64_to_le_bytes(payload.len() as u64)
            + payload,
{
    lemma_auto_spec_u64_to_from_le_bytes();
    let done = finished(blank_header() + payload);
    assert(done =~= spec_u64_to_le_bytes(payload.len() as u64) + payload);
    assert(done.subrange(0, 8) =~= spec_u64_to_le_bytes(payload.len() as u64));
}

/// A growable byte buffer of `bytey_byte_buffer`: bytes with a cursor, in a
/// block that grows when a write runs past it. Opaque to the proofs, which
/// speak of it through [`bb_bytes`], [`bb_cursor`] and [`bb_room`].
#[verifier::external_type_specification]
#[verifier::external_body]
pub struct ExByteBuffer(ByteBuffer);

/// The bytes a byte buffer holds, from its start to its length.
pub uninterp spec fn bb_bytes(buffer: ByteBuffer) -> Seq<u8>;

/// The position at which a byte buffer reads and writes next.
pub uninterp spec fn bb_cursor(buffer: ByteBuffer) -> nat;

/// The number of bytes that a byte buffer takes without growing: the
/// capacity it was made with, or the one it last grew to.
pub uninterp spec fn bb_room(buffer: ByteBuffer) -> nat;

/// `ByteBuffer::with_capacity`. Claims that a buffer that was handed out is
/// empty, with its cursor at the start and room for `capacity` bytes, and
/// that a capacity of zero is refused. Nothing is claimed of when the
/// allocation succeeds.
#[verifier::external_body]
pub(crate) fn bb_with_capacity(capacity: usize) -> (r: Result<ByteBuffer, ByteBufferError>)
    ensures
        r matches Ok(b) ==> bb_bytes(b) == Seq::<u8>::empty() && bb_cursor(b) == 0 && bb_room(b)
            == capacity,
        capacity == 0 ==> r is Err,
{
    ByteBuffer::with_capacity(capacity)
}

/// `ByteBuffer::length`. Claims the number of bytes held, and what the buffer
/// keeps true of itself: the cursor is within the bytes, and the bytes within
/// the room, which is within the largest capacity that the buffer accepts,
/// that of `isize`.
#[verifier::external_body]
pub(crate) fn bb_length(buffer: &ByteBuffer) -> (n: usize)
    ensures
        n == bb_bytes(*buffer).len(),
        bb_cursor(*buffer) <= n <= bb_room(*buffer) <= usize::MAX / 2,
{
    buffer.length()
}

/// `ByteBuffer::cursor`. Claims the cursor's position, which is within the
/// bytes, as these are within the largest capacity that the buffer accepts.
#[verifier::external_body]
pub(crate) fn bb_cursor_pos(buffer: &ByteBuffer) -> (n: usize)
    ensures
        n == bb_cursor(*buffer),
        n <= bb_bytes(*buffer).len() <= usize::MAX / 2,
{
    buffer.cursor()
}

/// `ByteBuffer::write_slice`. Claims that a write that ends within the room
/// succeeds; that a write that succeeds replaces or appends at the cursor
/// and moves the cursor behind what was written; that one that fails changes
/// nothing; and that the room never shrinks. A write that runs past the
/// room makes the buffer grow; nothing is claimed of when growing succeeds.
#[verifier::external_body]
pub(crate) fn bb_write_slice(buffer: &mut ByteBuffer, source: &[u8]) -> (r: Result<
    (),
    ByteBufferError,
>)
    ensures
        bb_cursor(*old(buffer)) + source@.len() <= bb_room(*old(buffer)) ==> r is Ok,
        r is Ok ==> bb_bytes(*final(buffer)) == write_at(
            bb_bytes(*old(buffer)),
            bb_cursor(*old(buffer)) as int,
            source@,
        ) && bb_cursor(*final(buffer)) == bb_cursor(*old(buffer)) + source@.len(),
        r is Err ==> bb_bytes(*final(buffer)) == bb_bytes(*old(buffer)) && bb_cursor(
            *final(buffer),
        ) == bb_cursor(*old(buffer)),
        r is Err ==> bb_room(*final(buffer)) == bb_room(*old(buffer)),
        bb_room(*final(buffer)) >= bb_room(*old(buffer)),
{
    match buffer.write_slice(source) {
        Ok(_) => Ok(()),
        Err(e) => Err(e),
    }
}

/// `ByteBuffer::read_slice`. Claims that the read succeeds exactly when `size`
/// bytes lie between the cursor and the end; that it then hands out those
/// bytes and moves the cursor behind them; and that a refused read changes
/// nothing. The sum of cursor and `size` must not overflow, as the buffer
/// adds them unchecked.
#[verifier::external_body]
pub(crate) fn bb_read_slice(buffer: &mut ByteBuffer, size: usize) -> (r: Result<
    Vec<u8>,
    ByteBufferError,
>)
    requires
        bb_cursor(*old(buffer)) + size <= usize::MAX,
    ensures
        r is Ok <==> bb_cursor(*old(buffer)) + size <= bb_bytes(*old(buffer)).len(),
        bb_bytes(*final(buffer)) == bb_bytes(*old(buffer)),
        bb_room(*final(buffer)) == bb_room(*old(buffer)),
        r matches Ok(v) ==> v@ == bb_bytes(*old(buffer)).subrange(
            bb_cursor(*old(buffer)) as int,
            bb_cursor(*old(buffer)) + size,
        ) && bb_cursor(*final(buffer)) == bb_cursor(*old(buffer)) + size,
        r is Err ==> bb_cursor(*final(buffer)) == bb_cursor(*old(buffer)),
{
    match buffer.read_slice(size) {
        Ok(bytes) => Ok(bytes.to_vec()),
        Err(e) => Err(e),
    }
}

/// `ByteBuffer::move_cursor`. Claims that the move succeeds exactly when the
/// target is within the bytes, that bytes and room stay, and that a refused
/// move leaves the cursor where it was.
#[verifier::external_body]
pub(crate) fn bb_move_cursor(buffer: &mut ByteBuffer, location: usize) -> (r: Result<
    (),
    ByteBufferError,
>)
    ensures
        r is Ok <==> location <= bb_bytes(*old(buffer)).len(),
        bb_bytes(*final(buffer)) == bb_bytes(*old(buffer)),
        bb_room(*final(buffer)) == bb_room(*old(buffer)),
        r is Ok ==> bb_cursor(*final(buffer)) == location,
        r is Err ==> bb_cursor(*final(buffer)) == bb_cursor(*old(buffer)),
{
    match buffer.move_cursor(location) {
        Ok(_) => Ok(()),
        Err(e) => Err(e),
    }
}

/// `ByteBuffer::move_cursor_to_end`. Claims that the cursor is then at the end
/// and bytes and room are as before.
#[verifier::external_body]
pub(crate) fn bb_move_cursor_to_end(buffer: &mut ByteBuffer)
    ensures
        bb_bytes(*final(buffer)) == bb_bytes(*old(buffer)),
        bb_room(*final(buffer)) == bb_room(*old(buffer)),
        bb_cursor(*final(buffer)) == bb_bytes(*old(buffer)).len(),
{
    buffer.move_cursor_to_end();
}

/// `ByteBuffer::truncate`. Claims that cutting succeeds exactly when the new
/// length is within the bytes; that it then keeps the first `length` bytes
/// and pulls the cursor back to the new end if it lay beyond; that a refused
/// cut changes nothing; and that the room stays.
#[verifier::external_body]
pub(crate) fn bb_truncate(buffer: &mut ByteBuffer, length: usize) -> (r: Result<
    (),
    ByteBufferError,
>)
    ensures
        r is Ok <==> length <= bb_bytes(*old(buffer)).len(),
        bb_room(*final(buffer)) == bb_room(*old(buffer)),
        r is Ok ==> bb_bytes(*final(buffer)) == bb_bytes(*old(buffer)).subrange(
            0,
            length as int,
        ) && bb_cursor(*final(buffer)) == if bb_cursor(*old(buffer)) > length {
            length as nat
        } else {
            bb_cursor(*old(buffer))
        },
        r is Err ==> bb_bytes(*final(buffer)) == bb_bytes(*old(buffer)) && bb_cursor(
            *final(buffer),
        ) == bb_cursor(*old(buffer)),
{
    match buffer.truncate(length) {
        Ok(_) => Ok(()),
        Err(e) => Err(e),
    }
}

/// `ByteBuffer::as_slice`. Claims that all bytes are handed out, that the
/// cursor then stands at their end, and that bytes and room stay.
#[verifier::external_body]
pub(crate) fn bb_as_slice(buffer: &mut ByteBuffer) -> (bytes: Vec<u8>)
    ensures
        bytes@ == bb_bytes(*old(buffer)),
        bb_bytes(*final(buffer)) == bb_bytes(*old(buffer)),
        bb_room(*final(buffer)) == bb_room(*old(buffer)),
        bb_cursor(*final(buffer)) == bb_bytes(*old(buffer)).len(),
{
    buffer.as_slice().to_vec()
}

/// Whether `n` more bytes go behind the cursor of `buffer` without its growing.
pub open spec fn has_room(buffer: ByteBuffer, n: nat) -> bool {
    bb_cursor(buffer) + n <= bb_room(buffer)
}

/// `after` is `before` with `src` written at its cursor; it has no less room.
pub open spec fn wrote(before: ByteBuffer, after: ByteBuffer, src: Seq<u8>) -> bool {
    &&& bb_bytes(after) == write_at(bb_bytes(before), bb_cursor(before) as int, src)
    &&& bb_cursor(after) == bb_cursor(before) + src.len()
    &&& bb_room(after) >= bb_room(before)
}

/// `after` holds the bytes of `before`, with the cursor at the same place
/// and the same room.
pub open spec fn untouched(before: ByteBuffer, after: ByteBuffer) -> bool {
    &&& bb_bytes(after) == bb_bytes(before)
    &&& bb_cursor(after) == bb_cursor(before)
    &&& bb_room(after) == bb_room(before)
}

/// `after` holds the bytes of `before`, with the cursor `n` bytes further on
/// and the same room.
pub open spec fn advanced(before: ByteBuffer, after: ByteBuffer, n: nat) -> bool {
    &&& bb_bytes(after) == bb_bytes(before)
    &&& bb_cursor(after) == bb_cursor(before) + n
    &&& bb_room(after) == bb_room(before)
}

/// The error is one that the byte buffer itself reported.
pub open spec fn is_buffer_fault<T>(r: Result<T, AscendingError>) -> bool {
    r matches Err(AscendingError::ByteyError { .. })
}

/// What a write of `src` at the cursor of `before` comes to: it succeeds
/// where `src` goes into the room, and may fail only where the buffer has to
/// grow; where it succeeds, `after` is `before` with `src` written; where it
/// fails, nothing has changed and the error is the byte buffer's.
pub open spec fn written(
    before: ByteBuffer,
    after: ByteBuffer,
    src: Seq<u8>,
    r: Result<(), AscendingError>,
) -> bool {
    &&& has_room(before, src.len()) ==> r is Ok
    &&& r is Ok ==> wrote(before, after, src)
    &&& r is Err ==> untouched(before, after) && is_buffer_fault(r)
}

/// Writes `source` at the cursor.
pub fn write_bytes(buffer: &mut ByteBuffer, source: &[u8]) -> (r: Result<(), AscendingError>)
    ensures
        written(*old(buffer), *final(buffer), source@, r),
{
    match bb_write_slice(buffer, source) {
        Ok(()) => Ok(()),
        Err(error) => Err(AscendingError::ByteyError { error }),
    }
}

/// Writes one byte at the cursor.
pub fn write_u8(buffer: &mut ByteBuffer, value: u8) -> (r: Result<(), AscendingError>)
    ensures
        written(*old(buffer), *final(buffer), seq![value], r),
{
    let bytes = vec![value];
    assert(bytes@ =~= seq![value]);
    write_bytes(buffer, bytes.as_slice())
}

/// Writes a truth value at the cursor, as one byte.
pub fn write_bool(buffer: &mut ByteBuffer, value: bool) -> (r: Result<(), AscendingError>)
    ensures
        written(*old(buffer), *final(buffer), bool_bytes(value), r),
{
    write_u8(buffer, if value { 1 } else { 0 })
}

/// Writes a 16-bit number at the cursor, little-endian.
pub fn write_u16(buffer: &mut ByteBuffer, value: u16) -> (r: Result<(), AscendingError>)
    ensures
        written(*old(buffer), *final(buffer), spec_u16_to_le_bytes(value), r),
{
    let bytes = u16_to_le_bytes(value);
    write_bytes(buffer, bytes.as_slice())
}

/// Writes a 64-bit number at the cursor, little-endian.
pub fn write_u64(buffer: &mut ByteBuffer, value: u64) -> (r: Result<(), AscendingError>)
    ensures
        written(*old(buffer), *final(buffer), spec_u64_to_le_bytes(value), r),
{
    let bytes = u64_to_le_bytes(value);
    write_bytes(buffer, bytes.as_slice())
}

/// Writes a signed 64-bit number at the cursor, little-endian.
pub fn write_i64(buffer: &mut ByteBuffer, value: i64) -> (r: Result<(), AscendingError>)
    ensures
        written(*old(buffer), *final(buffer), i64_bytes(value), r),
{
    write_u64(buffer, value as u64)
}

/// Reads `size` bytes at the cursor. Fails, leaving the cursor, when fewer are there.
pub fn read_bytes(buffer: &mut ByteBuffer, size: usize) -> (r: Result<Vec<u8>, AscendingError>)
    ensures
        bb_bytes(*final(buffer)) == bb_bytes(*old(buffer)),
        bb_room(*final(buffer)) == bb_room(*old(buffer)),
        match bytes_at(bb_bytes(*old(buffer)), bb_cursor(*old(buffer)) as int, size as int) {
            Some(found) => r matches Ok(v) && v@ == found && advanced(
                *old(buffer),
                *final(buffer),
                size as nat,
            ),
            None => is_buffer_fault(r) && untouched(*old(buffer), *final(buffer)),
        },
{
    let cursor = bb_cursor_pos(buffer);
    // The buffer adds cursor and size unchecked; a size beyond what that sum can
    // hold is read as the largest that it can, which fails in the same way.
    let ask = if size > usize::MAX - cursor {
        usize::MAX - cursor
    } else {
        size
    };
    match bb_read_slice(buffer, ask) {
        Ok(bytes) => Ok(bytes),
        Err(error) => Err(AscendingError::ByteyError { error }),
    }
}

/// Reads one byte at the cursor.
pub fn read_u8(buffer: &mut ByteBuffer) -> (r: Result<u8, AscendingError>)
    ensures
        bb_bytes(*final(buffer)) == bb_bytes(*old(buffer)),
        bb_room(*final(buffer)) == bb_room(*old(buffer)),
        match u8_at(bb_bytes(*old(buffer)), bb_cursor(*old(buffer)) as int) {
            Some(found) => r == Ok::<u8, AscendingError>(found) && advanced(
                *old(buffer),
                *final(buffer),
                1,
            ),
            None => is_buffer_fault(r) && untouched(*old(buffer), *final(buffer)),
        },
{
    match read_bytes(buffer, 1) {
        Ok(bytes) => Ok(bytes[0]),
        Err(e) => Err(e),
    }
}

/// Reads a little-endian 16-bit number at the cursor.
pub fn read_u16(buffer: &mut ByteBuffer) -> (r: Result<u16, AscendingError>)
    ensures
        bb_bytes(*final(buffer)) == bb_bytes(*old(buffer)),
        bb_room(*final(buffer)) == bb_room(*old(buffer)),
        match u16_at(bb_bytes(*old(buffer)), bb_cursor(*old(buffer)) as int) {
            Some(found) => r == Ok::<u16, AscendingError>(found) && advanced(
                *old(buffer),
                *final(buffer),
                2,
            ),
            None => is_buffer_fault(r) && untouched(*old(buffer), *final(buffer)),
        },
{
    match read_bytes(buffer, 2) {
        Ok(bytes) => Ok(u16_from_le_bytes(bytes.as_slice())),
        Err(e) => Err(e),
    }
}

/// Reads a little-endian 64-bit number at the cursor.
pub fn read_u64(buffer: &mut ByteBuffer) -> (r: Result<u64, AscendingError>)
    ensures
        bb_bytes(*final(buffer)) == bb_bytes(*old(buffer)),
        bb_room(*final(buffer)) == bb_room(*old(buffer)),
        match u64_at(bb_bytes(*old(buffer)), bb_cursor(*old(buffer)) as int) {
            Some(found) => r == Ok::<u64, AscendingError>(found) && advanced(
                *old(buffer),
                *final(buffer),
                8,
            ),
            None => is_buffer_fault(r) && untouched(*old(buffer), *final(buffer)),
        },
{
    match read_bytes(buffer, 8) {
        Ok(bytes) => Ok(u64_from_le_bytes(bytes.as_slice())),
        Err(e) => Err(e),
    }
}

/// An empty buffer with room for the payload of the largest frame.
pub fn scratch_packet() -> (r: Result<ByteBuffer, AscendingError>)
    ensures
        r matches Ok(b) ==> bb_bytes(b) == Seq::<u8>::empty() && bb_cursor(b) == 0 && bb_room(b)
            == MAX_FRAME_LENGTH,
        r is Err ==> is_buffer_fault(r),
{
    match bb_with_capacity(MAX_FRAME_LENGTH as usize) {
        Ok(buffer) => Ok(buffer),
        Err(error) => Err(AscendingError::ByteyError { error }),
    }
}

/// The frame codec on top of a growable byte buffer.
pub trait ByteBufferExt: Sized {
    /// A buffer that holds a blank length header, ready for the payload.
    fn new_packet() -> Result<ByteBuffer, AscendingError>;

    /// A buffer that holds a blank length header, with room for a payload of `len` bytes.
    fn new_packet_with(len: usize) -> Result<ByteBuffer, AscendingError>;

    /// Writes a text at the cursor: its length in bytes, then the bytes.
    fn write_str(&mut self, str: &str) -> Result<&mut ByteBuffer, AscendingError>;

    /// Reads a text at the cursor.
    fn read_str(&mut self) -> Result<String, AscendingError>;

    /// Fills in the length header and rewinds the buffer for sending.
    fn finish(&mut self) -> Result<&mut ByteBuffer, AscendingError>;
}

/// The room of a packet that is made for a payload of `len` bytes: that of
/// the header and the payload, or the most that there is.
pub open spec fn packet_room(len: usize) -> nat {
    if len > usize::MAX - 8 {
        usize::MAX as nat
    } else {
        (len + 8) as nat
    }
}

impl ByteBufferExt for ByteBuffer {
    fn new_packet() -> (r: Result<ByteBuffer, AscendingError>)
        ensures
            r matches Ok(b) ==> bb_bytes(b) == blank_header() && bb_cursor(b) == 8 && bb_room(b)
                >= packet_room(8),
            r is Err ==> is_buffer_fault(r),
    {
        Self::new_packet_with(8)
    }

    fn new_packet_with(len: usize) -> (r: Result<ByteBuffer, AscendingError>)
        ensures
            r matches Ok(b) ==> bb_bytes(b) == blank_header() && bb_cursor(b) == 8 && bb_room(b)
                >= packet_room(len),
            r is Err ==> is_buffer_fault(r),
    {
        // A capacity beyond all bounds is refused by the buffer itself.
        let capacity = if len > usize::MAX - 8 {
            usize::MAX
        } else {
            len + 8
        };
        let mut buffer = match bb_with_capacity(capacity) {
            Ok(buffer) => buffer,
            Err(error) => return Err(AscendingError::ByteyError { error }),
        };
        proof {
            lemma_auto_spec_u64_to_from_le_bytes();
        }
        let header = u64_to_le_bytes(0);
        match bb_write_slice(&mut buffer, header.as_slice()) {
            Ok(()) => {},
            Err(error) => return Err(AscendingError::ByteyError { error }),
        }
        assert(bb_bytes(buffer) =~= blank_header());
        Ok(buffer)
    }

    #[inline]
    fn write_str(&mut self, str: &str) -> (r: Result<&mut ByteBuffer, AscendingError>)
        ensures
            has_room(*old(self), 8 + encode_utf8(str@).len()) ==> r is Ok,
            r matches Ok(b) ==> *final(b) == *final(self) && wrote(
                *old(self),
                *b,
                str_bytes(str@),
            ),
            r is Err ==> is_buffer_fault(r),
            r is Err ==> untouched(*old(self), *final(self)) || wrote(
                *old(self),
                *final(self),
                spec_u64_to_le_bytes(encode_utf8(str@).len() as u64),
            ),
    {
        let bytestr = str.as_bytes();
        proof {
            lemma_auto_spec_u64_to_from_le_bytes();
        }
        let ghost start = *self;
        let _ = bb_length(self);
        let size = u64_to_le_bytes(bytestr.len() as u64);
        match bb_write_slice(self, size.as_slice()) {
            Ok(()) => {},
            Err(error) => return Err(AscendingError::ByteyError { error }),
        }
        let _ = bb_length(self);
        match bb_write_slice(self, bytestr) {
            Ok(()) => {},
            Err(error) => return Err(AscendingError::ByteyError { error }),
        }
        proof {
            lemma_write_at_twice(
                bb_bytes(start),
                bb_cursor(start) as int,
                spec_u64_to_le_bytes(bytestr@.len() as u64),
                bytestr@,
            );
        }
        Ok(self)
    }

    #[inline]
    fn read_str(&mut self) -> (r: Result<String, AscendingError>)
        ensures
            bb_bytes(*final(self)) == bb_bytes(*old(self)),
            bb_room(*final(self)) == bb_room(*old(self)),
            match str_at(bb_bytes(*old(self)), bb_cursor(*old(self)) as int) {
                Some((text, end)) => r matches Ok(s) && s@ == text && bb_cursor(*final(self))
                    == end,
                None => is_buffer_fault(r) && bb_cursor(*final(self)) == if bb_cursor(*old(self))
                    + 8 <= bb_bytes(*old(self)).len() {
                    bb_cursor(*old(self)) + 8
                } else {
                    bb_cursor(*old(self))
                },
            },
    {
        let _ = bb_cursor_pos(self);
        let header = match bb_read_slice(self, 8) {
            Ok(header) => header,
            Err(error) => return Err(AscendingError::ByteyError { error }),
        };
        let size = u64_from_le_bytes(header.as_slice());
        if size == 0 {
            return Ok(String::new());
        }
        let cursor = bb_cursor_pos(self);
        // The buffer adds cursor and size unchecked; a size beyond what that sum
        // can hold is read as the largest that it can, which fails in the same way.
        let wanted: usize = if size > (usize::MAX - cursor) as u64 {
            usize::MAX - cursor
        } else {
            size as usize
        };
        let bytes = match bb_read_slice(self, wanted) {
            Ok(bytes) => bytes,
            Err(error) => return Err(AscendingError::ByteyError { error }),
        };
        match str_from_utf8(bytes.as_slice()) {
            Some(text) => Ok(text.to_owned()),
            None => Ok(String::new()),
        }
    }

    #[inline]
    fn finish(&mut self) -> (r: Result<&mut ByteBuffer, AscendingError>)
        ensures
            r is Ok <==> bb_bytes(*old(self)).len() >= 8,
            r matches Ok(b) ==> *final(b) == *final(self) && bb_bytes(*b) == finished(
                bb_bytes(*old(self)),
            ) && bb_cursor(*b) == 0 && bb_room(*b) >= bb_room(*old(self)),
            r is Err ==> r matches Err(AscendingError::InvalidPacket),
            r is Err ==> untouched(*old(self), *final(self)),
    {
        let length = bb_length(self);
        if length < 8 {
            return Err(AscendingError::InvalidPacket);
        }
        proof {
            lemma_auto_spec_u64_to_from_le_bytes();
        }
        let ghost room = bb_room(*self);
        match bb_move_cursor(self, 0) {
            Ok(()) => {},
            Err(_) => return Err(AscendingError::InvalidPacket),
        }
        let header = u64_to_le_bytes((length - 8) as u64);
        match bb_write_slice(self, header.as_slice()) {
            Ok(()) => {},
            Err(_) => return Err(AscendingError::InvalidPacket),
        }
        let _ = bb_length(self);
        match bb_move_cursor(self, 0) {
            Ok(()) => {},
            Err(_) => return Err(AscendingError::InvalidPacket),
        }
        assert(bb_bytes(*self) =~= finished(bb_bytes(*old(self))));
        Ok(self)
    }
}

/// A text takes at most four bytes for each of its characters.
pub proof fn lemma_encoded_length(chars: Seq<char>)
    ensures
        encode_utf8(chars).len() <= 4 * chars.len(),
    decreases chars.len(),
{
    if chars.len() > 0 {
        lemma_encoded_length(chars.drop_first());
    }
}

/// The largest payload, in bytes, that one frame may carry.
pub const MAX_FRAME_LENGTH: u64 = 8192;

/// Whether `length` is an acceptable payload length for one frame.
pub open spec fn frame_length_ok(length: u64) -> bool {
    1 <= length && length <= MAX_FRAME_LENGTH
}

/// Whether `bytes` are one frame as it goes over the wire: a header that holds
/// the number of bytes behind it, and at least one and at most
/// [`MAX_FRAME_LENGTH`] bytes behind it.
pub open spec fn is_frame(bytes: Seq<u8>) -> bool {
    &&& bytes.len() >= 9
    &&& bytes.len() - 8 <= MAX_FRAME_LENGTH
    &&& u64_at(bytes, 0) == Some((bytes.len() - 8) as u64)
}

/// Whether `buffer` holds one frame as it goes over the wire. The buffer is
/// left rewound.
pub fn frame_ok(buffer: &mut ByteBuffer) -> (ok: bool)
    ensures
        ok == is_frame(bb_bytes(*old(buffer))),
        bb_bytes(*final(buffer)) == bb_bytes(*old(buffer)),
        bb_room(*final(buffer)) == bb_room(*old(buffer)),
        bb_cursor(*final(buffer)) == 0,
{
    let length = bb_length(buffer);
    let _ = bb_move_cursor(buffer, 0);
    if length < 9 || length - 8 > MAX_FRAME_LENGTH as usize {
        return false;
    }
    let header = match read_u64(buffer) {
        Ok(header) => header,
        Err(_) => 0,
    };
    let _ = bb_move_cursor(buffer, 0);
    header == (length - 8) as u64
}

/// The bytes of the frame that carries `payload`: its length as a
/// little-endian 64-bit number, then the payload.
pub open spec fn frame_bytes(payload: Seq<u8>) -> Seq<u8> {
    spec_u64_to_le_bytes(payload.len() as u64) + payload
}

/// Whether `payload` can be carried by one frame: it has at least one and at
/// most [`MAX_FRAME_LENGTH`] bytes.
pub open spec fn payload_fits(payload: Seq<u8>) -> bool {
    1 <= payload.len() <= MAX_FRAME_LENGTH
}

/// A finished frame with a payload is a frame as it goes over the wire.
pub proof fn law_finished_is_frame(payload: Seq<u8>)
    requires
        payload_fits(payload),
    ensures
        is_frame(finished(blank_header() + payload)),
        u64_at(finished(blank_header() + payload), 0) == Some(payload.len() as u64),
        frame_length_ok(payload.len() as u64),
{
    law_finish_header(payload);
    lemma_auto_spec_u64_to_from_le_bytes();
    assert(finished(blank_header() + payload).len() == 8 + payload.len());
}

/// The frame that carries a payload that fits is well-formed.
pub proof fn law_frame_bytes_is_frame(payload: Seq<u8>)
    requires
        payload_fits(payload),
    ensures
        is_frame(frame_bytes(payload)),
        frame_bytes(payload) == finished(blank_header() + payload),
        u64_at(frame_bytes(payload), 0) == Some(payload.len() as u64),
        frame_length_ok(payload.len() as u64),
{
    law_finished_is_frame(payload);
    law_finish_header(payload);
}

/// Writes `payload` behind the blank header of `buffer`, a packet that was
/// just begun, and finishes the frame.
///
/// A payload that no frame can carry is refused as no packet, before
/// anything is written. Any other is written and framed where it goes into
/// the room of `buffer`, as it does where the packet was made for it; where
/// the buffer has to grow and cannot, that is the byte buffer's fault.
pub fn pack(buffer: ByteBuffer, payload: &[u8]) -> (r: Result<ByteBuffer, AscendingError>)
    requires
        bb_bytes(buffer) == blank_header(),
        bb_cursor(buffer) == 8,
    ensures
        !payload_fits(payload@) ==> r matches Err(AscendingError::InvalidPacket),
        payload_fits(payload@) && has_room(buffer, payload@.len()) ==> r is Ok,
        payload_fits(payload@) && r is Err ==> is_buffer_fault(r),
        r matches Ok(frame) ==> bb_bytes(frame) == frame_bytes(payload@) && bb_cursor(frame) == 0,
{
    let mut buffer = buffer;
    if payload.len() == 0 || payload.len() > MAX_FRAME_LENGTH as usize {
        return Err(AscendingError::InvalidPacket);
    }
    proof {
        lemma_auto_spec_u64_to_from_le_bytes();
        lemma_write_at_end(bb_bytes(buffer), payload@);
        law_finish_header(payload@);
    }
    match write_bytes(&mut buffer, payload) {
        Ok(()) => {},
        Err(e) => return Err(e),
    }
    match buffer.finish() {
        Ok(_) => {},
        Err(e) => return Err(e),
    }
    Ok(buffer)
}

} // verus!
