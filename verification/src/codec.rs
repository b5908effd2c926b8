//! The wire format: a fixed 24-byte header of three unsigned 64-bit
//! big-endian fields (filename length, file size, reserved), followed by the
//! raw filename bytes, followed by the content bytes.

use vstd::prelude::*;

use crate::errors::TransferError;

verus! {

/// Number of bytes in the fixed transfer header.
pub const HEADER_SIZE: usize = 24;

/// Fixed buffer size for streaming file content in either direction.
pub const CHUNK_SIZE: usize = 65536;

/// Upper bound accepted for the announced filename length, so that a
/// corrupted or hostile header cannot demand an unbounded allocation.
pub const MAX_NAME_LEN: u64 = 4096;

/// The number that a byte sequence denotes when read as an unsigned
/// big-endian integer: the empty sequence denotes zero, and each appended
/// byte multiplies the accumulated value by 256.
pub open spec fn be_value(s: Seq<u8>) -> nat
    decreases s.len(),
{
    if s.len() == 0 {
        0
    } else {
        be_value(s.drop_last()) * 256 + s.last() as nat
    }
}

/// 256 to the power `n`: the number of values `n` bytes can denote.
pub open spec fn byte_span(n: nat) -> nat
    decreases n,
{
    if n == 0 {
        1
    } else {
        256 * byte_span((n - 1) as nat)
    }
}

/// Byte `i` (most significant first) of the 8-byte big-endian encoding of `x`.
pub open spec fn be_byte(x: u64, i: int) -> u8 {
    ((x >> (((7 - i) * 8) as u64)) & 0xff) as u8
}

/// The 8-byte big-endian encoding of `x`.
pub open spec fn be_bytes(x: u64) -> Seq<u8> {
    Seq::new(8, |i: int| be_byte(x, i))
}

pub proof fn lemma_byte_span_values()
    ensures
        byte_span(7) == 0x100000000000000,
        byte_span(8) == 0x10000000000000000,
{
    assert(byte_span(0) == 1);
    assert(byte_span(1) == 256);
    assert(byte_span(2) == 0x10000);
    assert(byte_span(3) == 0x1000000);
    assert(byte_span(4) == 0x100000000);
    assert(byte_span(5) == 0x10000000000);
    assert(byte_span(6) == 0x1000000000000);
    assert(byte_span(7) == 0x100000000000000);
    assert(byte_span(8) == 0x10000000000000000);
}

pub proof fn lemma_byte_span_increases(m: nat, n: nat)
    requires
        m <= n,
    ensures
        byte_span(m) <= byte_span(n),
    decreases n,
{
    if m < n {
        lemma_byte_span_increases(m, (n - 1) as nat);
    }
}

/// A sequence of `n` bytes denotes a value below 256 to the power `n`.
pub proof fn lemma_be_value_bound(s: Seq<u8>)
    ensures
        be_value(s) < byte_span(s.len()),
    decreases s.len(),
{
    if s.len() > 0 {
        lemma_be_value_bound(s.drop_last());
    }
}

/// Appending one byte multiplies the denoted value by 256 and adds the byte.
pub proof fn lemma_be_value_snoc(s: Seq<u8>, b: u8)
    ensures
        be_value(s.push(b)) == be_value(s) * 256 + b,
{
    assert(s.push(b).drop_last() =~= s);
}

/// The 8-byte big-endian encoding of `x` denotes `x` itself.
pub proof fn lemma_be_bytes_value(x: u64)
    ensures
        be_bytes(x).len() == 8,
        be_value(be_bytes(x)) == x,
{
    let s = be_bytes(x);
    assert(s.take(1) =~= Seq::<u8>::empty().push(be_byte(x, 0)));
    lemma_be_value_snoc(Seq::<u8>::empty(), be_byte(x, 0));
    assert(s.take(2) =~= s.take(1).push(s[1]));
    lemma_be_value_snoc(s.take(1), s[1]);
    assert(s.take(3) =~= s.take(2).push(s[2]));
    lemma_be_value_snoc(s.take(2), s[2]);
    assert(s.take(4) =~= s.take(3).push(s[3]));
    lemma_be_value_snoc(s.take(3), s[3]);
    assert(s.take(5) =~= s.take(4).push(s[4]));
    lemma_be_value_snoc(s.take(4), s[4]);
    assert(s.take(6) =~= s.take(5).push(s[5]));
    lemma_be_value_snoc(s.take(5), s[5]);
    assert(s.take(7) =~= s.take(6).push(s[6]));
    lemma_be_value_snoc(s.take(6), s[6]);
    assert(s.take(8) =~= s.take(7).push(s[7]));
    lemma_be_value_snoc(s.take(7), s[7]);
    assert(s.take(8) =~= s);
    assert(be_value(s) == (((((((s[0] as nat) * 256 + s[1] as nat) * 256 + s[2] as nat) * 256
        + s[3] as nat) * 256 + s[4] as nat) * 256 + s[5] as nat) * 256 + s[6] as nat) * 256
        + s[7] as nat);
    assert(s[0] == ((x >> 56) & 0xff) as u8);
    assert(s[1] == ((x >> 48) & 0xff) as u8);
    assert(s[2] == ((x >> 40) & 0xff) as u8);
    assert(s[3] == ((x >> 32) & 0xff) as u8);
    assert(s[4] == ((x >> 24) & 0xff) as u8);
    assert(s[5] == ((x >> 16) & 0xff) as u8);
    assert(s[6] == ((x >> 8) & 0xff) as u8);
    assert(x >> 0u64 == x) by (bit_vector);
    assert(s[7] == (x & 0xff) as u8);
    assert({
        &&& (x >> 56) & 0xff < 256
        &&& (x >> 48) & 0xff < 256
        &&& (x >> 40) & 0xff < 256
        &&& (x >> 32) & 0xff < 256
        &&& (x >> 24) & 0xff < 256
        &&& (x >> 16) & 0xff < 256
        &&& (x >> 8) & 0xff < 256
        &&& x & 0xff < 256
        &&& ((((((((x >> 56) & 0xff) * 256 + ((x >> 48) & 0xff)) * 256 + ((x >> 40) & 0xff))
            * 256 + ((x >> 32) & 0xff)) * 256 + ((x >> 24) & 0xff)) * 256 + ((x >> 16) & 0xff))
            * 256 + ((x >> 8) & 0xff)) * 256 + (x & 0xff) == x
    }) by (bit_vector);
}

/// Appends the 8-byte big-endian encoding of `x` to `out`.
pub fn push_be_bytes(out: &mut Vec<u8>, x: u64)
    ensures
        final(out)@ == old(out)@ + be_bytes(x),
{
    let ghost orig = out@;
    let mut i: usize = 0;
    while i < 8
        invariant
            i <= 8,
            out@ == orig + be_bytes(x).take(i as int),
        decreases 8 - i,
    {
        let sh: u64 = (7 - i as u64) * 8;
        assert((x >> sh) & 0xff < 256) by (bit_vector);
        let b = ((x >> sh) & 0xff) as u8;
        assert(b == be_byte(x, i as int));
        out.push(b);
        proof {
            assert(be_bytes(x).take(i as int + 1) =~= be_bytes(x).take(i as int).push(
                be_byte(x, i as int),
            ));
        }
        i += 1;
    }
    proof {
        assert(be_bytes(x).take(8) =~= be_bytes(x));
    }
}

/// Reads the 8 bytes of `bytes` starting at `off` as an unsigned big-endian
/// integer.
pub fn read_be_u64(bytes: &Vec<u8>, off: usize) -> (x: u64)
    requires
        off + 8 <= bytes@.len(),
    ensures
        x == be_value(bytes@.subrange(off as int, off as int + 8)),
{
    let n = bytes.len();
    let mut x: u64 = 0;
    let mut i: usize = 0;
    while i < 8
        invariant
            i <= 8,
            off + 8 <= n,
            n == bytes@.len(),
            x == be_value(bytes@.subrange(off as int, off as int + i as int)),
        decreases 8 - i,
    {
        proof {
            lemma_be_value_bound(bytes@.subrange(off as int, off as int + i as int));
            lemma_byte_span_increases(i as nat, 7);
            lemma_byte_span_values();
        }
        let b = bytes[off + i];
        proof {
            lemma_be_value_snoc(bytes@.subrange(off as int, off as int + i as int), b);
            assert(bytes@.subrange(off as int, off as int + i as int + 1) =~= bytes@.subrange(
                off as int,
                off as int + i as int,
            ).push(b));
        }
        x = x * 256 + (b as u64);
        i += 1;
    }
    x
}

/// The fixed-size record that precedes a transferred file on the wire.
#[derive(Clone, Copy, Debug, PartialEq, Eq, Structural)]
pub struct Header {
    /// Byte length of the filename that follows the header.
    pub name_len: u64,
    /// Declared size of the content in bytes; informational only, since the
    /// receiver streams until the transport signals end-of-stream.
    pub file_size: u64,
    /// Reserved for future protocol extensions; always zero here.
    pub reserved: u64,
}

/// The 24-byte wire encoding of a header.
pub open spec fn header_bytes(h: Header) -> Seq<u8> {
    be_bytes(h.name_len) + be_bytes(h.file_size) + be_bytes(h.reserved)
}

/// The header denoted by the first 24 bytes of `s`.
pub open spec fn parse_header(s: Seq<u8>) -> Header
    recommends
        s.len() >= 24,
{
    Header {
        name_len: be_value(s.subrange(0, 8)) as u64,
        file_size: be_value(s.subrange(8, 16)) as u64,
        reserved: be_value(s.subrange(16, 24)) as u64,
    }
}

/// Encodes a header into its 24-byte wire form.
pub fn encode_header(h: &Header) -> (out: Vec<u8>)
    ensures
        out@ == header_bytes(*h),
        out@.len() == HEADER_SIZE,
{
    let mut out: Vec<u8> = Vec::new();
    push_be_bytes(&mut out, h.name_len);
    push_be_bytes(&mut out, h.file_size);
    push_be_bytes(&mut out, h.reserved);
    proof {
        lemma_be_bytes_value(h.name_len);
        lemma_be_bytes_value(h.file_size);
        lemma_be_bytes_value(h.reserved);
        assert(out@ =~= header_bytes(*h));
    }
    out
}

/// Decodes the header from the bytes that were available on the stream.
/// Fewer than 24 bytes mean the connection closed inside the header, which
/// is a protocol error, never a panic.
pub fn decode_header(bytes: &Vec<u8>) -> (r: Result<Header, TransferError>)
    ensures
        bytes@.len() >= HEADER_SIZE ==> r == Ok::<Header, TransferError>(parse_header(bytes@)),
        bytes@.len() < HEADER_SIZE ==> r == Err::<Header, TransferError>(
            TransferError::ProtocolError,
        ),
{
    if bytes.len() < HEADER_SIZE {
        return Err(TransferError::ProtocolError);
    }
    let name_len = read_be_u64(bytes, 0);
    let file_size = read_be_u64(bytes, 8);
    let reserved = read_be_u64(bytes, 16);
    proof {
        lemma_byte_span_values();
        lemma_be_value_bound(bytes@.subrange(0, 8));
        lemma_be_value_bound(bytes@.subrange(8, 16));
        lemma_be_value_bound(bytes@.subrange(16, 24));
    }
    Ok(Header { name_len, file_size, reserved })
}

/// Appends all of `src` to `dst`.
pub fn append_bytes(dst: &mut Vec<u8>, src: &Vec<u8>)
    ensures
        final(dst)@ == old(dst)@ + src@,
{
    let ghost orig = dst@;
    let mut i: usize = 0;
    while i < src.len()
        invariant
            i <= src@.len(),
            dst@ == orig + src@.take(i as int),
        decreases src@.len() - i,
    {
        dst.push(src[i]);
        proof {
            assert(src@.take(i as int + 1) =~= src@.take(i as int).push(src@[i as int]));
        }
        i += 1;
    }
    proof {
        assert(src@.take(src@.len() as int) =~= src@);
    }
}

/// Appends `src[from..to]` to `dst`.
pub fn append_range(dst: &mut Vec<u8>, src: &Vec<u8>, from: usize, to: usize)
    requires
        from <= to <= src@.len(),
    ensures
        final(dst)@ == old(dst)@ + src@.subrange(from as int, to as int),
{
    let ghost orig = dst@;
    let mut i: usize = from;
    while i < to
        invariant
            from <= i <= to <= src@.len(),
            dst@ == orig + src@.subrange(from as int, i as int),
        decreases to - i,
    {
        dst.push(src[i]);
        proof {
            assert(src@.subrange(from as int, i as int + 1) =~= src@.subrange(
                from as int,
                i as int,
            ).push(src@[i as int]));
        }
        i += 1;
    }
}

/// The header-plus-filename prefix that the sender writes before the content.
pub open spec fn frame_bytes(name: Seq<u8>, size: u64) -> Seq<u8>
    recommends
        name.len() <= u64::MAX,
{
    header_bytes(Header { name_len: name.len() as u64, file_size: size, reserved: 0 }) + name
}

/// Builds the wire prefix for a file of the given name and size: the
/// 24-byte header immediately followed by the raw filename bytes.
pub fn encode_frame(name: &Vec<u8>, size: u64) -> (out: Vec<u8>)
    ensures
        out@ == frame_bytes(name@, size),
        out@.len() == HEADER_SIZE + name@.len(),
{
    let h = Header { name_len: name.len() as u64, file_size: size, reserved: 0 };
    let mut out = encode_header(&h);
    append_bytes(&mut out, name);
    out
}

/// Everything the sender writes on the socket for one transfer: the frame,
/// then the content, and then nothing more before the half-close.
pub open spec fn sender_stream(name: Seq<u8>, size: u64, content: Seq<u8>) -> Seq<u8>
    recommends
        name.len() <= u64::MAX,
{
    frame_bytes(name, size) + content
}

/// What a receiver recovers from one complete inbound stream: the header,
/// the filename bytes and the content bytes; or nothing, when the stream
/// ends inside the header or inside the filename.
pub open spec fn parse_stream(s: Seq<u8>) -> Option<(Header, Seq<u8>, Seq<u8>)> {
    if s.len() < 24 {
        None
    } else {
        let h = parse_header(s);
        if s.len() - 24 < h.name_len {
            None
        } else {
            Some((h, s.subrange(24, 24 + h.name_len as int), s.skip(24 + h.name_len as int)))
        }
    }
}

/// Header fidelity: decoding an encoded header recovers every field.
pub proof fn lemma_header_round_trip(h: Header)
    ensures
        header_bytes(h).len() == 24,
        parse_header(header_bytes(h)) == h,
{
    lemma_be_bytes_value(h.name_len);
    lemma_be_bytes_value(h.file_size);
    lemma_be_bytes_value(h.reserved);
    assert(header_bytes(h).subrange(0, 8) =~= be_bytes(h.name_len));
    assert(header_bytes(h).subrange(8, 16) =~= be_bytes(h.file_size));
    assert(header_bytes(h).subrange(16, 24) =~= be_bytes(h.reserved));
}

/// Round trip of one whole transfer: a receiver that reads the sender's
/// stream to its end recovers the filename, the declared size and the
/// content byte for byte.
pub proof fn lemma_stream_round_trip(name: Seq<u8>, size: u64, content: Seq<u8>)
    requires
        name.len() <= u64::MAX,
    ensures
        parse_stream(sender_stream(name, size, content)) == Some(
            (
                Header { name_len: name.len() as u64, file_size: size, reserved: 0 },
                name,
                content,
            ),
        ),
{
    let h = Header { name_len: name.len() as u64, file_size: size, reserved: 0 };
    let s = sender_stream(name, size, content);
    lemma_be_bytes_value(h.name_len);
    lemma_be_bytes_value(h.file_size);
    lemma_be_bytes_value(h.reserved);
    assert(s.subrange(0, 8) =~= be_bytes(h.name_len));
    assert(s.subrange(8, 16) =~= be_bytes(h.file_size));
    assert(s.subrange(16, 24) =~= be_bytes(h.reserved));
    assert(parse_header(s) == h);
    assert(s.subrange(24, 24 + name.len() as int) =~= name);
    assert(s.skip(24 + name.len() as int) =~= content);
}

} // verus!
