//! The frame: a fixed header of magic, size, sequence numbers and flags,
//! followed by the (possibly compressed) payload.

use crate::codec::{
    be32_bytes, byte_swap32, get_u32_le, get_u8, le32_bytes, le32_value, lemma_byte_swap32_involution,
    lemma_le32_roundtrip,
    put_u32, put_u32_le, put_u8,
};
use crate::compress::{compress_block, decompress_block, zstd_block_compress, zstd_block_decompress};
use vstd::prelude::*;

verus! {

/// The flag bit that marks a compressed payload.
pub const FLAG_COMPRESSED: u8 = 0x01;

/// Length of the header that precedes the payload.
pub const HEADER_LEN: usize = 17;

/// Payloads longer than this are compressed before they are sent.
pub const COMPRESS_THRESHOLD: usize = 32;

/// Size of the buffer that a compressed payload is decompressed into.
pub const DECOMPRESS_CAPACITY: usize = 512 * 1024;

/// Zstd compression level used for payloads (zstd's default).
pub const COMPRESS_LEVEL: i32 = 0;

/// Why a buffer is not a frame.
#[derive(Debug, Clone, Copy, PartialEq, Eq, Structural)]
pub enum ProtocolError {
    /// The buffer is shorter than a header; it holds this many bytes.
    TooSmall(usize),
    /// The body could not be serialized.
    Serialize,
    /// The body could not be deserialized.
    Deserialize,
    /// The size field disagrees with the length of the buffer.
    MismatchSize,
    /// The buffer does not start with the frame magic.
    MismatchMagic,
}

/// A frame of the link. `B` is the body: the request or response itself, or
/// its serialized bytes on the way to and from the wire.
#[derive(Debug)]
pub struct Frame<B> {
    /// Length of the whole frame on the wire, header included.
    pub size: u32,
    /// Packet sequence number.
    pub seq: u32,
    /// Sequence number of the request that this frame answers.
    pub ack: u32,
    /// Flags (see `FLAG_COMPRESSED`).
    pub flag: u8,
    /// Request or response body.
    pub body: B,
}

impl<B: View> View for Frame<B> {
    type V = Frame<B::V>;

    open spec fn view(&self) -> Frame<B::V> {
        Frame { size: self.size, seq: self.seq, ack: self.ack, flag: self.flag, body: self.body@ }
    }
}

/// The sequence number that follows `s` (wrapping at `u32::MAX`).
pub open spec fn next_seq(s: u32) -> u32 {
    if s == u32::MAX {
        0
    } else {
        (s + 1) as u32
    }
}

/// The sequence number `k` steps after `s`.
pub open spec fn seq_after(s: u32, k: nat) -> u32
    decreases k,
{
    if k == 0 {
        s
    } else {
        next_seq(seq_after(s, (k - 1) as nat))
    }
}

/// Stepping `k` times from `s` adds `k` modulo 2^32.
pub proof fn lemma_seq_after(s: u32, k: nat)
    ensures
        seq_after(s, k) == (s + k) % 0x1_0000_0000,
    decreases k,
{
    if k > 0 {
        lemma_seq_after(s, (k - 1) as nat);
    }
}

/// Sequence numbers do not repeat: of fewer than 2^32 frames numbered one
/// after the other from one counter, no two share a number.
pub proof fn lemma_seq_distinct(s: u32, i: nat, j: nat)
    requires
        i < j < 0x1_0000_0000,
    ensures
        seq_after(s, i) != seq_after(s, j),
{
    lemma_seq_after(s, i);
    lemma_seq_after(s, j);
}

/// The source of sequence numbers: it hands out 1, 2, 3, ... and wraps
/// around after `u32::MAX`.
pub struct SequenceCounter {
    next: u32,
}

impl View for SequenceCounter {
    type V = u32;

    /// The number that the next frame gets.
    closed spec fn view(&self) -> u32 {
        self.next
    }
}

impl SequenceCounter {
    /// A counter whose first number is 1.
    pub fn new() -> (c: Self)
        ensures
            c@ == 1,
    {
        SequenceCounter { next: 1 }
    }

    /// Hands out the current number and moves on to the next.
    pub fn take(&mut self) -> (seq: u32)
        ensures
            seq == old(self)@,
            final(self)@ == next_seq(old(self)@),
    {
        let seq = self.next;
        self.next = self.next.wrapping_add(1);
        seq
    }
}

impl<B> Frame<B> {
    /// A new request frame carrying `b`, numbered by `counter`.
    pub fn new_request(b: B, counter: &mut SequenceCounter) -> (r: Result<Frame<B>, ProtocolError>)
        ensures
            r matches Ok(f) && f.size == 0 && f.seq == old(counter)@ && f.ack == 0 && f.flag == 0
                && f.body == b,
            final(counter)@ == next_seq(old(counter)@),
    {
        let seq = counter.take();
        Ok(Frame { size: 0, seq: seq, ack: 0, body: b, flag: 0 })
    }

    /// A new response frame carrying `b` that answers the request numbered
    /// `ack`, numbered by `counter`.
    pub fn new_response(b: B, ack: u32, counter: &mut SequenceCounter) -> (r: Result<
        Frame<B>,
        ProtocolError,
    >)
        ensures
            r matches Ok(f) && f.size == 0 && f.seq == old(counter)@ && f.ack == ack && f.flag
                == 0 && f.body == b,
            final(counter)@ == next_seq(old(counter)@),
    {
        let seq = counter.take();
        Ok(Frame { size: 0, seq, ack, body: b, flag: 0 })
    }
}


/// The four bytes that open every frame.
pub open spec fn header_magic() -> Seq<u8> {
    seq![0x07u8, 0x55u8, 0xaau8, 0xb3u8]
}

/// Whether `buf` opens with the frame magic.
pub open spec fn has_magic(buf: Seq<u8>) -> bool {
    &&& buf.len() >= 4
    &&& buf[0] == 0x07u8
    &&& buf[1] == 0x55u8
    &&& buf[2] == 0xaau8
    &&& buf[3] == 0xb3u8
}

/// The bytes of a frame on the wire: magic, size (four bytes,
/// little-endian), sequence and acknowledgement numbers (big-endian), flag,
/// payload.
pub open spec fn encode_frame(size: u32, seq: u32, ack: u32, flag: u8, payload: Seq<u8>) -> Seq<
    u8,
> {
    header_magic() + le32_bytes(size) + be32_bytes(seq) + be32_bytes(ack) + seq![flag] + payload
}

/// The size field of a frame whose payload is `payload_len` bytes long: the
/// frame's length.
pub open spec fn size_field(payload_len: nat) -> u32 {
    (HEADER_LEN + payload_len) as u32
}

/// Whether a frame with a payload of `payload_len` bytes has a length that the
/// size field holds.
pub open spec fn fits_size_field(payload_len: nat) -> bool {
    HEADER_LEN + payload_len <= u32::MAX
}

/// Whether `flag` marks a compressed payload: its lowest bit, the one of
/// `FLAG_COMPRESSED`, is set.
pub open spec fn is_compressed(flag: u8) -> bool {
    flag % 2 == 1
}

/// The compressed bit of a flag is what masking it with `FLAG_COMPRESSED`
/// tests, and setting that bit marks a flag as compressed.
pub proof fn lemma_compressed_bit(flag: u8)
    ensures
        is_compressed(flag) <==> flag & FLAG_COMPRESSED != 0,
        is_compressed(flag | FLAG_COMPRESSED),
{
    assert(flag % 2 == 1 <==> flag & 1u8 != 0) by (bit_vector);
    assert((flag | 1u8) % 2 == 1) by (bit_vector);
}

/// The compression that writing a frame with body `body` makes: bodies longer
/// than the threshold are compressed, and the result is used where zstd
/// succeeds and it is shorter than the body.
pub open spec fn chosen_compression(body: Seq<u8>) -> Option<Seq<u8>> {
    if body.len() > COMPRESS_THRESHOLD {
        match zstd_block_compress(body, COMPRESS_LEVEL as int) {
            Some(c) => if c.len() < body.len() {
                Some(c)
            } else {
                None
            },
            None => None,
        }
    } else {
        None
    }
}

/// The bytes of an optional buffer.
pub open spec fn opt_bytes(o: Option<Vec<u8>>) -> Option<Seq<u8>> {
    match o {
        Some(v) => Some(v@),
        None => None,
    }
}

/// The payload that goes on the wire: the compressed body where there is one.
pub open spec fn sent_payload(body: Seq<u8>, compressed: Option<Seq<u8>>) -> Seq<u8> {
    match compressed {
        Some(c) => c,
        None => body,
    }
}

/// The frame `f` after it was written with payload compression `compressed`:
/// the compressed flag set where a compressed payload is sent, and the size
/// field set.
pub open spec fn written_frame(f: Frame<Seq<u8>>, compressed: Option<Seq<u8>>) -> Frame<Seq<u8>> {
    Frame {
        size: size_field(sent_payload(f.body, compressed).len()),
        seq: f.seq,
        ack: f.ack,
        flag: if compressed is Some {
            f.flag | FLAG_COMPRESSED
        } else {
            f.flag
        },
        body: f.body,
    }
}

/// The bytes that writing `f` with payload compression `compressed` produces.
pub open spec fn written_bytes(f: Frame<Seq<u8>>, compressed: Option<Seq<u8>>) -> Seq<u8> {
    let g = written_frame(f, compressed);
    encode_frame(g.size, g.seq, g.ack, g.flag, sent_payload(f.body, compressed))
}

/// The header error of `buf`, if it has one.
pub open spec fn header_error(buf: Seq<u8>) -> Option<ProtocolError> {
    if buf.len() < HEADER_LEN {
        Some(ProtocolError::TooSmall(buf.len() as usize))
    } else if !has_magic(buf) {
        Some(ProtocolError::MismatchMagic)
    } else if buf.len() != le32_value(buf[4], buf[5], buf[6], buf[7]) {
        Some(ProtocolError::MismatchSize)
    } else {
        None
    }
}

/// The payload of the frame in `buf`, as it came over the wire.
pub open spec fn raw_payload(buf: Seq<u8>) -> Seq<u8> {
    buf.subrange(HEADER_LEN as int, buf.len() as int)
}

/// Whether reading `buf` completes: its header is bad, or its payload is not
/// compressed, or it decompresses.
pub open spec fn readable(buf: Seq<u8>) -> bool {
    header_error(buf) is None && is_compressed(buf[16]) ==> zstd_block_decompress(
        raw_payload(buf),
        DECOMPRESS_CAPACITY as int,
    ) is Some
}

/// What reading `buf` gives where `decompressed` is what its payload
/// decompressed to: the header error, or the frame, whose body is the
/// decompressed payload where the flag marks it as compressed.
pub open spec fn frame_of(buf: Seq<u8>, decompressed: Option<Seq<u8>>) -> Result<
    Frame<Seq<u8>>,
    ProtocolError,
> {
    match header_error(buf) {
        Some(e) => Err(e),
        None => Ok(
            Frame {
                size: buf.len() as u32,
                seq: le32_value(buf[8], buf[9], buf[10], buf[11]),
                ack: le32_value(buf[12], buf[13], buf[14], buf[15]),
                flag: buf[16],
                body: if is_compressed(buf[16]) {
                    decompressed.unwrap()
                } else {
                    raw_payload(buf)
                },
            },
        ),
    }
}

/// What reading `buf` gives: the header error, or the frame with its payload
/// decompressed where the flag says so.
pub open spec fn read_result(buf: Seq<u8>) -> Result<Frame<Seq<u8>>, ProtocolError> {
    frame_of(buf, zstd_block_decompress(raw_payload(buf), DECOMPRESS_CAPACITY as int))
}

/// What reading gives back of a frame `f` that was written with payload
/// compression `compressed`: the written frame with its sequence and
/// acknowledgement numbers byte-reversed (they are written big-endian and read
/// little-endian).
pub open spec fn read_back(f: Frame<Seq<u8>>, compressed: Option<Seq<u8>>) -> Frame<Seq<u8>> {
    let g = written_frame(f, compressed);
    Frame { size: g.size, seq: byte_swap32(g.seq), ack: byte_swap32(g.ack), flag: g.flag, body: g.body }
}

/// Reading the bytes of a written frame completes and gives back the frame,
/// its sequence and acknowledgement numbers byte-reversed. This holds of a
/// frame whose compressed flag was clear, whose length fits the size field,
/// and whose compressed payload, if any, decompresses to its body.
pub proof fn lemma_read_after_write(f: Frame<Seq<u8>>, compressed: Option<Seq<u8>>)
    requires
        !is_compressed(f.flag),
        fits_size_field(sent_payload(f.body, compressed).len()),
        compressed matches Some(c) ==> zstd_block_decompress(c, DECOMPRESS_CAPACITY as int) == Some(
            f.body,
        ),
    ensures
        readable(written_bytes(f, compressed)),
        read_result(written_bytes(f, compressed)) == Ok::<Frame<Seq<u8>>, ProtocolError>(
            read_back(f, compressed),
        ),
{
    let g = written_frame(f, compressed);
    let payload = sent_payload(f.body, compressed);
    let bytes = written_bytes(f, compressed);
    lemma_le32_roundtrip(g.size);
    assert(bytes.len() == HEADER_LEN + payload.len());
    assert(bytes[4] == le32_bytes(g.size)[0]);
    assert(bytes[5] == le32_bytes(g.size)[1]);
    assert(bytes[6] == le32_bytes(g.size)[2]);
    assert(bytes[7] == le32_bytes(g.size)[3]);
    assert(has_magic(bytes));
    assert(bytes[8] == be32_bytes(g.seq)[0]);
    assert(bytes[9] == be32_bytes(g.seq)[1]);
    assert(bytes[10] == be32_bytes(g.seq)[2]);
    assert(bytes[11] == be32_bytes(g.seq)[3]);
    assert(bytes[12] == be32_bytes(g.ack)[0]);
    assert(bytes[13] == be32_bytes(g.ack)[1]);
    assert(bytes[14] == be32_bytes(g.ack)[2]);
    assert(bytes[15] == be32_bytes(g.ack)[3]);
    assert(bytes[16] == g.flag);
    assert(raw_payload(bytes) =~= payload);
    lemma_compressed_bit(f.flag);
}

/// Reading the bytes of a written frame whose sequence and acknowledgement
/// numbers read the same in either byte order (such as 0) gives back exactly
/// the written frame.
pub proof fn lemma_read_after_write_exact(f: Frame<Seq<u8>>, compressed: Option<Seq<u8>>)
    requires
        !is_compressed(f.flag),
        fits_size_field(sent_payload(f.body, compressed).len()),
        compressed matches Some(c) ==> zstd_block_decompress(c, DECOMPRESS_CAPACITY as int) == Some(
            f.body,
        ),
        byte_swap32(f.seq) == f.seq,
        byte_swap32(f.ack) == f.ack,
    ensures
        read_result(written_bytes(f, compressed)) == Ok::<Frame<Seq<u8>>, ProtocolError>(
            written_frame(f, compressed),
        ),
{
    lemma_read_after_write(f, compressed);
}

/// A response that answers a request carries back the request's own sequence
/// number: the receiver of request `f` reads its number byte-reversed and
/// acknowledges it in response `g`, and reading `g` reverses it again. This
/// holds where both frames read back as written (see
/// `lemma_read_after_write`).
pub proof fn lemma_ack_returns_seq(
    f: Frame<Seq<u8>>,
    fc: Option<Seq<u8>>,
    g: Frame<Seq<u8>>,
    gc: Option<Seq<u8>>,
)
    requires
        g.ack == read_back(f, fc).seq,
    ensures
        read_back(g, gc).ack == f.seq,
{
    lemma_byte_swap32_involution(f.seq);
}

/// The size field decides: a buffer that has the magic and at least a
/// header's length is read as a frame only where its length is the one that
/// the little-endian size field in bytes 4 to 7 records, and the frame then
/// has that size. A buffer of any other length, shorter (a truncated frame)
/// or longer, is refused for its size.
pub proof fn lemma_size_field_decides(buf: Seq<u8>)
    requires
        buf.len() >= HEADER_LEN,
        has_magic(buf),
    ensures
        header_error(buf) is None <==> buf.len() == le32_value(buf[4], buf[5], buf[6], buf[7]),
        buf.len() != le32_value(buf[4], buf[5], buf[6], buf[7]) ==> read_result(buf) == Err::<
            Frame<Seq<u8>>,
            ProtocolError,
        >(ProtocolError::MismatchSize),
        read_result(buf) matches Ok(f) ==> f.size == buf.len() && f.size == le32_value(
            buf[4],
            buf[5],
            buf[6],
            buf[7],
        ),
{
}

/// Writing compresses where it pays, whatever the body's length: a body
/// longer than the threshold whose zstd compression `c` succeeds and is
/// shorter than the body goes out as `c`, with the compressed flag set; any
/// other body goes out as it is, with the flag unchanged.
pub proof fn lemma_compressed_where_shorter(f: Frame<Seq<u8>>, c: Seq<u8>)
    ensures
        f.body.len() > COMPRESS_THRESHOLD && zstd_block_compress(f.body, COMPRESS_LEVEL as int)
            == Some(c) && c.len() < f.body.len() ==> {
            &&& is_compressed(written_frame(f, chosen_compression(f.body)).flag)
            &&& written_bytes(f, chosen_compression(f.body)).subrange(
                HEADER_LEN as int,
                written_bytes(f, chosen_compression(f.body)).len() as int,
            ) == c
        },
        chosen_compression(f.body) is None ==> {
            &&& written_frame(f, chosen_compression(f.body)).flag == f.flag
            &&& written_bytes(f, chosen_compression(f.body)).subrange(
                HEADER_LEN as int,
                written_bytes(f, chosen_compression(f.body)).len() as int,
            ) == f.body
        },
        chosen_compression(f.body) is None <==> !(f.body.len() > COMPRESS_THRESHOLD && exists|
            d: Seq<u8>,
        | zstd_block_compress(f.body, COMPRESS_LEVEL as int) == Some(d) && d.len() < f.body.len()),
{
    lemma_compressed_bit(f.flag);
    let g = written_frame(f, chosen_compression(f.body));
    let payload = sent_payload(f.body, chosen_compression(f.body));
    let bytes = written_bytes(f, chosen_compression(f.body));
    assert(bytes.subrange(HEADER_LEN as int, bytes.len() as int) =~= payload);
    if f.body.len() > COMPRESS_THRESHOLD {
        match zstd_block_compress(f.body, COMPRESS_LEVEL as int) {
            Some(d) => {
                if d.len() < f.body.len() {
                    assert(chosen_compression(f.body) == Some(d));
                }
            },
            None => {},
        }
    }
}

/// The size field of a frame whose payload is `payload_len` bytes long.
fn frame_size(payload_len: usize) -> (size: u32)
    requires
        fits_size_field(payload_len as nat),
    ensures
        size == size_field(payload_len as nat),
{
    (payload_len + HEADER_LEN) as u32
}

/// A new buffer holding the header of a frame.
fn encode_header(size: u32, seq: u32, ack: u32, flag: u8) -> (out: Vec<u8>)
    ensures
        out@ == encode_frame(size, seq, ack, flag, Seq::empty()),
{
    let mut buffer: Vec<u8> = Vec::new();
    buffer.push(0x07);
    buffer.push(0x55);
    buffer.push(0xaa);
    buffer.push(0xb3);
    put_u32_le(&mut buffer, size);
    put_u32(&mut buffer, seq);
    put_u32(&mut buffer, ack);
    put_u8(&mut buffer, flag);
    assert(buffer@ =~= encode_frame(size, seq, ack, flag, Seq::empty()));
    buffer
}

impl Frame<Vec<u8>> {
    /// Writes the frame, whose body is the serialized request or response,
    /// to a new buffer, sending `compressed` in place of the body where it is
    /// given. Sets the compressed flag where it is, and the size field.
    pub fn write_with(&mut self, compressed: Option<Vec<u8>>) -> (out: Vec<u8>)
        requires
            fits_size_field(sent_payload(old(self)@.body, opt_bytes(compressed)).len()),
        ensures
            final(self)@ == written_frame(old(self)@, opt_bytes(compressed)),
            out@ == written_bytes(old(self)@, opt_bytes(compressed)),
    {
        let ghost payload = sent_payload(self@.body, opt_bytes(compressed));
        let payload_len: usize = match &compressed {
            Some(c) => c.len(),
            None => self.body.len(),
        };
        if compressed.is_some() {
            self.flag = self.flag | FLAG_COMPRESSED;
        }
        self.size = frame_size(payload_len);
        proof {
            assert(self@ == written_frame(old(self)@, opt_bytes(compressed)));
        }
        let mut buffer = encode_header(self.size, self.seq, self.ack, self.flag);
        let ghost header = buffer@;
        match &compressed {
            Some(c) => buffer.extend_from_slice(c.as_slice()),
            None => buffer.extend_from_slice(self.body.as_slice()),
        }
        proof {
            assert(buffer@ =~= header + payload);
        }
        buffer
    }

    /// Writes the frame, whose body is the serialized request or response,
    /// to a new buffer. A body longer than the threshold is sent compressed
    /// where zstd succeeds and its output is shorter than the body, and the
    /// compressed flag is then set; the size field is set to the length of
    /// what is written, which the body's length plus the header's must fit.
    /// Reading the buffer gives the frame back, its numbers byte-reversed,
    /// where the frame's compressed flag was clear and the body is shorter
    /// than the decompression buffer. A compressed payload decompresses to
    /// the body into any buffer larger than the body.
    pub fn write(&mut self) -> (out: Vec<u8>)
        requires
            fits_size_field(old(self)@.body.len()),
        ensures
            chosen_compression(old(self)@.body) matches Some(c) ==> forall|capacity: int|
                old(self)@.body.len() < capacity <= isize::MAX ==> #[trigger] zstd_block_decompress(
                    c,
                    capacity,
                ) == Some(old(self)@.body),
            final(self)@ == written_frame(old(self)@, chosen_compression(old(self)@.body)),
            out@ == written_bytes(old(self)@, chosen_compression(old(self)@.body)),
            out@.len() <= HEADER_LEN + old(self)@.body.len(),
            !is_compressed(old(self).flag) && old(self)@.body.len() < DECOMPRESS_CAPACITY ==> readable(
                out@,
            ) && read_result(out@) == Ok::<Frame<Seq<u8>>, ProtocolError>(
                read_back(old(self)@, chosen_compression(old(self)@.body)),
            ),
    {
        let compressed = if self.body.len() > COMPRESS_THRESHOLD {
            match compress_block(self.body.as_slice(), COMPRESS_LEVEL) {
                // Send the compressed payload where it is shorter.
                Some(c) => if c.len() < self.body.len() {
                    Some(c)
                } else {
                    None
                },
                None => None,
            }
        } else {
            None
        };
        proof {
            assert(opt_bytes(compressed) == chosen_compression(self@.body));
            if !is_compressed(self.flag) && self@.body.len() < DECOMPRESS_CAPACITY {
                lemma_read_after_write(self@, opt_bytes(compressed));
            }
        }
        self.write_with(compressed)
    }

    /// Checks the header of the frame in `buffer`: its length, its magic and
    /// its size field, in that order.
    pub fn check_header(buffer: &[u8]) -> (r: Result<(), ProtocolError>)
        ensures
            r is Ok <==> header_error(buffer@) is None,
            r matches Err(e) ==> header_error(buffer@) == Some(e),
    {
        // If packet size < minimum size, return an error.
        if buffer.len() < HEADER_LEN {
            return Err(ProtocolError::TooSmall(buffer.len()));
        }
        // Check frame magic header.
        if buffer[0] != 0x07u8 || buffer[1] != 0x55u8 || buffer[2] != 0xaau8 || buffer[3] != 0xb3u8 {
            return Err(ProtocolError::MismatchMagic);
        }
        // buffer.len() as actual size, and the size field as expected size.
        if buffer.len() != get_u32_le(buffer, 4) as usize {
            return Err(ProtocolError::MismatchSize);
        }
        Ok(())
    }

    /// Reads a frame from `buffer`, where `decompressed` is what its payload
    /// decompressed to: the header is checked, and the body of the result is
    /// `decompressed` where the flag marks the payload as compressed, the
    /// payload itself where it does not.
    pub fn read_with(buffer: &[u8], decompressed: Option<Vec<u8>>) -> (r: Result<
        Frame<Vec<u8>>,
        ProtocolError,
    >)
        requires
            header_error(buffer@) is None && is_compressed(buffer@[16]) ==> decompressed is Some,
        ensures
            r matches Ok(f) ==> frame_of(buffer@, opt_bytes(decompressed)) == Ok::<
                Frame<Seq<u8>>,
                ProtocolError,
            >(f@),
            r matches Err(e) ==> frame_of(buffer@, opt_bytes(decompressed)) == Err::<
                Frame<Seq<u8>>,
                ProtocolError,
            >(e),
    {
        match Self::check_header(buffer) {
            Err(e) => {
                return Err(e);
            },
            Ok(()) => {},
        }
        let seq = get_u32_le(buffer, 8);
        let ack = get_u32_le(buffer, 12);
        let flag = get_u8(buffer, 16);
        proof {
            lemma_compressed_bit(flag);
        }
        let body = if flag & FLAG_COMPRESSED != 0 {
            decompressed.unwrap()
        } else {
            let mut raw: Vec<u8> = Vec::new();
            raw.extend_from_slice(&buffer[HEADER_LEN..buffer.len()]);
            raw
        };
        proof {
            assert(body@ =~= frame_of(buffer@, opt_bytes(decompressed)).unwrap().body);
        }
        Ok(Frame { size: buffer.len() as u32, seq, ack, flag, body })
    }

    /// The decompressed payload of the frame in `buffer`, where its header is
    /// good and its flag marks the payload as compressed.
    fn decompress_payload(buffer: &[u8]) -> (d: Option<Vec<u8>>)
        ensures
            header_error(buffer@) is None && is_compressed(buffer@[16]) ==> opt_bytes(d)
                == zstd_block_decompress(raw_payload(buffer@), DECOMPRESS_CAPACITY as int),
    {
        if Self::check_header(buffer).is_ok() {
            let flag = get_u8(buffer, 16);
            proof {
                lemma_compressed_bit(flag);
            }
            // If the compress flag set, decompress first.
            if flag & FLAG_COMPRESSED != 0 {
                let fields = &buffer[HEADER_LEN..buffer.len()];
                proof {
                    assert(fields@ =~= raw_payload(buffer@));
                }
                return decompress_block(fields, DECOMPRESS_CAPACITY);
            }
        }
        None
    }

    /// Reads a frame from `buffer`: the header is checked, and a payload that
    /// the flag marks as compressed is decompressed. The body of the result is
    /// the serialized request or response.
    pub fn read(buffer: &[u8]) -> (r: Result<Frame<Vec<u8>>, ProtocolError>)
        requires
            readable(buffer@),
        ensures
            r matches Ok(f) ==> read_result(buffer@) == Ok::<Frame<Seq<u8>>, ProtocolError>(f@),
            r matches Err(e) ==> read_result(buffer@) == Err::<Frame<Seq<u8>>, ProtocolError>(e),
    {
        let decompressed = Self::decompress_payload(buffer);
        Self::read_with(buffer, decompressed)
    }

    /// Reads a frame from `buffer` where reading completes: `None` where the
    /// header is good, the payload is marked as compressed and it does not
    /// decompress.
    pub fn try_read(buffer: &[u8]) -> (r: Option<Result<Frame<Vec<u8>>, ProtocolError>>)
        ensures
            r is None <==> !readable(buffer@),
            r matches Some(Ok(f)) ==> read_result(buffer@) == Ok::<Frame<Seq<u8>>, ProtocolError>(
                f@,
            ),
            r matches Some(Err(e)) ==> read_result(buffer@) == Err::<Frame<Seq<u8>>, ProtocolError>(
                e,
            ),
    {
        if Self::check_header(buffer).is_ok() {
            let flag = get_u8(buffer, 16);
            proof {
                lemma_compressed_bit(flag);
            }
            if flag & FLAG_COMPRESSED != 0 && Self::decompress_payload(buffer).is_none() {
                return None;
            }
        }
        Some(Self::read(buffer))
    }
}

} // verus!
