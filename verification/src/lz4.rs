//! HDF5 LZ4 filter (filter ID 32004).
//!
//! The HDF5 LZ4 filter stores data as:
//! - `orig_size: u32 BE` — original uncompressed size
//! - Repeated blocks: `[block_size: u32 BE][compressed_block]`
//!
//! Each block is independently LZ4-compressed. Blocks are concatenated until
//! the total decompressed output reaches `orig_size`.

use vstd::prelude::*;
use vstd::slice::slice_subrange;

use lz4_flex::block::DecompressError;

use crate::error::Error;

verus! {

#[verifier::external_type_specification]
#[verifier::external_body]
pub struct ExDecompressError(DecompressError);

/// What `lz4_flex::decompress` gives for an LZ4 block and an output size
/// limit: `Ok` of the decompressed bytes, or, where it fails, `Err` of the
/// text that its error displays.
pub uninterp spec fn lz4_block_output(input: Seq<u8>, min_uncompressed_size: usize) -> Result<
    Seq<u8>,
    Seq<char>,
>;

/// Bytes of 0xFF in a row at position `i` of `s`, `len` of them.
pub open spec fn ff_run_at(s: Seq<u8>, i: int, len: int) -> bool {
    0 <= i && i + len <= s.len() && forall|k: int| i <= k < i + len ==> s[k] == 0xFF
}

/// The shortest run of 0xFF bytes that an LZ4 block may not hold here.
/// LZ4 writes a long literal or match length as a run of 0xFF bytes, each
/// adding 255 to a `u32` sum, which is then added to 15 or 19 and to an
/// output position of at most `isize::MAX` in `usize` arithmetic. On 64-bit
/// targets only the `u32` sum can overflow, from 16_843_009 bytes on; on
/// 32-bit targets the `usize` sums can, and runs of 2^23 bytes are left out.
pub open spec fn ff_run_limit() -> int {
    if usize::BITS == 64 {
        16_843_009
    } else {
        0x80_0000
    }
}

/// `s` holds no run of `ff_run_limit()` or more bytes of 0xFF.
pub open spec fn short_ff_runs(s: Seq<u8>) -> bool {
    forall|i: int| !#[trigger] ff_run_at(s, i, ff_run_limit())
}

/// Calls `lz4_flex::decompress` (block format, safe and checked decoder).
/// The contract claims that the call succeeds exactly where the named
/// result `lz4_block_output` is `Ok`, that it then returns those bytes,
/// that where it fails, the text of its error (`DecompressError`'s
/// `Display`, a function of the error alone) is the named `Err` text,
/// and that they are at most `min_uncompressed_size` long: the source
/// allocates that many bytes and truncates to what was written, and the
/// checked decoder fails with `OutputTooSmall` rather than write past them.
/// The output buffer of `min_uncompressed_size` bytes is allocated first;
/// the contract leaves out sizes above `isize::MAX`, where that panics.
/// The decoder adds up literal and match lengths in `u32` and `usize`
/// arithmetic that overflows (a panic in overflow-checked builds) for runs
/// of millions of 0xFF bytes; the contract leaves out inputs with such a
/// run (`short_ff_runs`), below which no such sum can overflow.
#[verifier::external_body]
fn lz4_decompress_block(input: &[u8], min_uncompressed_size: usize) -> (r: Result<
    Vec<u8>,
    DecompressError,
>)
    requires
        min_uncompressed_size <= isize::MAX,
        short_ff_runs(input@),
    ensures
        r matches Ok(v) ==> lz4_block_output(input@, min_uncompressed_size) is Ok
            && lz4_block_output(input@, min_uncompressed_size)->Ok_0 == v@,
        r matches Err(de) ==> forall|t: String|
            vstd::string::to_string_from_display_ensures::<DecompressError>(&de, t)
                ==> lz4_block_output(input@, min_uncompressed_size) is Err
                && lz4_block_output(input@, min_uncompressed_size)->Err_0 == t@,
        r matches Ok(v) ==> v@.len() <= min_uncompressed_size,
{
    lz4_flex::decompress(input, min_uncompressed_size)
}

/// The big-endian 32-bit number in the four bytes of `d` from `i` on.
pub open spec fn be_u32_at(d: Seq<u8>, i: int) -> int {
    d[i] as int * 0x1000000 + d[i + 1] as int * 0x10000 + d[i + 2] as int * 0x100 + d[i + 3] as int
}

/// Decodes the blocks of `data` from position `pos` on, with `out` already
/// decompressed, until the data ends or `orig` bytes have been produced;
/// `Err` holds the message of the error.
pub open spec fn decode_blocks(data: Seq<u8>, orig: int, pos: int, out: Seq<u8>) -> Result<
    Seq<u8>,
    Seq<char>,
>
    decreases data.len() - pos,
{
    if !(pos < data.len() && out.len() < orig) {
        Ok(out)
    } else if pos + 4 > data.len() {
        Err("LZ4: truncated block header"@)
    } else {
        let size = be_u32_at(data, pos);
        let start = pos + 4;
        if start + size > data.len() {
            Err("LZ4: truncated block data"@)
        } else {
            match lz4_block_output(data.subrange(start, start + size), (orig - out.len()) as usize) {
                Ok(b) => decode_blocks(data, orig, start + size, out + b),
                Err(t) => Err("LZ4: "@ + t),
            }
        }
    }
}

/// Every block payload that decoding `data` from position `pos` on (with
/// `out` already decompressed) hands to the LZ4 decoder has only short runs
/// of 0xFF bytes. Bytes that decoding never reaches are not looked at.
pub open spec fn reached_blocks_short(data: Seq<u8>, orig: int, pos: int, out: Seq<u8>) -> bool
    decreases data.len() - pos,
{
    if !(pos < data.len() && out.len() < orig) {
        true
    } else if pos + 4 > data.len() {
        true
    } else {
        let size = be_u32_at(data, pos);
        let start = pos + 4;
        if start + size > data.len() {
            true
        } else {
            let block = data.subrange(start, start + size);
            &&& short_ff_runs(block)
            &&& match lz4_block_output(block, (orig - out.len()) as usize) {
                Ok(b) => reached_blocks_short(data, orig, start + size, out + b),
                Err(_) => true,
            }
        }
    }
}

/// The data that `decompress` takes without the LZ4 decoder overflowing:
/// each block payload that it reaches has only short runs of 0xFF bytes.
pub open spec fn lz4_input_ok(data: Seq<u8>) -> bool {
    data.len() >= 4 ==> reached_blocks_short(data, be_u32_at(data, 0), 4, Seq::empty())
}

/// The bytes that HDF5 LZ4-filtered `data` decompresses to, or the message
/// of the error: a missing size header, a truncated block header or block,
/// or "LZ4: " and the text of the LZ4 decoder's error for a refused block.
pub open spec fn lz4_filter_output(data: Seq<u8>) -> Result<Seq<u8>, Seq<char>> {
    if data.len() < 4 {
        Err("LZ4: input too short for header"@)
    } else {
        decode_blocks(data, be_u32_at(data, 0), 4, Seq::empty())
    }
}

/// The four big-endian bytes of a 32-bit number.
pub open spec fn be_bytes(n: int) -> Seq<u8> {
    seq![(n / 0x1000000) as u8, ((n / 0x10000) % 0x100) as u8, ((n / 0x100) % 0x100) as u8, (n % 0x100) as u8]
}

proof fn be_bytes_read_back(n: int)
    requires
        0 <= n < 0x1_0000_0000,
    ensures
        be_bytes(n).len() == 4,
        be_u32_at(be_bytes(n), 0) == n,
{
    let a = n / 0x1000000;
    let b = (n / 0x10000) % 0x100;
    let c = (n / 0x100) % 0x100;
    let d = n % 0x100;
    assert(0 <= a < 0x100 && 0 <= b < 0x100 && 0 <= c < 0x100 && 0 <= d < 0x100
        && a * 0x1000000 + b * 0x10000 + c * 0x100 + d == n) by (nonlinear_arith)
        requires
            0 <= n < 0x1_0000_0000,
            a == n / 0x1000000,
            b == (n / 0x10000) % 0x100,
            c == (n / 0x100) % 0x100,
            d == n % 0x100,
    ;
}

/// The blocks `cs`, each after its big-endian 32-bit size.
pub open spec fn framed_blocks(cs: Seq<Seq<u8>>) -> Seq<u8>
    decreases cs.len(),
{
    if cs.len() == 0 {
        Seq::empty()
    } else {
        be_bytes(cs[0].len() as int) + cs[0] + framed_blocks(cs.drop_first())
    }
}

/// The byte strings `xs`, one after the other.
pub open spec fn flatten_blocks(xs: Seq<Seq<u8>>) -> Seq<u8>
    decreases xs.len(),
{
    if xs.len() == 0 {
        Seq::empty()
    } else {
        xs[0] + flatten_blocks(xs.drop_first())
    }
}

/// Each block of `cs` is under 2^32 bytes long and, given the room that the
/// blocks before it leave of `room`, decodes to the non-empty `xs` at the
/// same position.
pub open spec fn blocks_decode(cs: Seq<Seq<u8>>, xs: Seq<Seq<u8>>, room: int) -> bool
    decreases cs.len(),
{
    &&& cs.len() == xs.len()
    &&& cs.len() > 0 ==> {
        &&& cs[0].len() < 0x1_0000_0000
        &&& xs[0].len() > 0
        &&& 0 <= room < 0x1_0000_0000
        &&& lz4_block_output(cs[0], room as usize) == Ok::<Seq<u8>, Seq<char>>(xs[0])
        &&& blocks_decode(cs.drop_first(), xs.drop_first(), room - xs[0].len())
    }
}

proof fn decode_framed_blocks(
    data: Seq<u8>,
    n: int,
    prefix: Seq<u8>,
    out: Seq<u8>,
    cs: Seq<Seq<u8>>,
    xs: Seq<Seq<u8>>,
)
    requires
        data == prefix + framed_blocks(cs),
        blocks_decode(cs, xs, n - out.len()),
        out.len() + flatten_blocks(xs).len() == n,
        forall|i: int| 0 <= i < cs.len() ==> short_ff_runs(#[trigger] cs[i]),
    ensures
        decode_blocks(data, n, prefix.len() as int, out) == Ok::<Seq<u8>, Seq<char>>(
            out + flatten_blocks(xs),
        ),
        reached_blocks_short(data, n, prefix.len() as int, out),
    decreases cs.len(),
{
    if cs.len() == 0 {
        assert(out + flatten_blocks(xs) =~= out);
    } else {
        let c = cs[0];
        let x = xs[0];
        let pos = prefix.len() as int;
        let hdr = be_bytes(c.len() as int);
        be_bytes_read_back(c.len() as int);
        let prefix2 = prefix + hdr + c;
        assert(data =~= prefix2 + framed_blocks(cs.drop_first()));
        assert(data[pos] == hdr[0]);
        assert(data[pos + 1] == hdr[1]);
        assert(data[pos + 2] == hdr[2]);
        assert(data[pos + 3] == hdr[3]);
        assert(be_u32_at(data, pos) == c.len());
        assert(data.subrange(pos + 4, pos + 4 + c.len()) =~= c);
        assert(flatten_blocks(xs) == x + flatten_blocks(xs.drop_first()));
        assert(short_ff_runs(cs[0]));
        assert forall|i: int| 0 <= i < cs.drop_first().len() implies short_ff_runs(
            #[trigger] cs.drop_first()[i],
        ) by {
            assert(cs.drop_first()[i] == cs[i + 1]);
        }
        decode_framed_blocks(data, n, prefix2, out + x, cs.drop_first(), xs.drop_first());
        assert(out + x + flatten_blocks(xs.drop_first()) =~= out + flatten_blocks(xs));
    }
}

/// Blocks are decoded in turn and their outputs concatenated: a frame of
/// the original size `n` and the blocks `cs`, each of which decodes (with
/// the room the earlier ones leave) to the non-empty `xs` at its position,
/// together `n` bytes, decompresses to the `xs` one after the other; and
/// where no block holds a long run of 0xFF bytes, `decompress` takes it.
pub proof fn blocks_concatenate(n: int, cs: Seq<Seq<u8>>, xs: Seq<Seq<u8>>)
    requires
        0 <= n < 0x1_0000_0000,
        blocks_decode(cs, xs, n),
        flatten_blocks(xs).len() == n,
        forall|i: int| 0 <= i < cs.len() ==> short_ff_runs(#[trigger] cs[i]),
    ensures
        lz4_filter_output(be_bytes(n) + framed_blocks(cs)) == Ok::<Seq<u8>, Seq<char>>(
            flatten_blocks(xs),
        ),
        lz4_input_ok(be_bytes(n) + framed_blocks(cs)),
{
    let data = be_bytes(n) + framed_blocks(cs);
    be_bytes_read_back(n);
    assert(data[0] == be_bytes(n)[0]);
    assert(data[1] == be_bytes(n)[1]);
    assert(data[2] == be_bytes(n)[2]);
    assert(data[3] == be_bytes(n)[3]);
    decode_framed_blocks(data, n, be_bytes(n), Seq::empty(), cs, xs);
    assert(Seq::<u8>::empty() + flatten_blocks(xs) =~= flatten_blocks(xs));
}

proof fn decode_blocks_ignores_tail(data: Seq<u8>, extra: Seq<u8>, orig: int, pos: int, out: Seq<u8>)
    requires
        0 <= pos,
        decode_blocks(data, orig, pos, out) matches Ok(o) && o.len() >= orig,
    ensures
        decode_blocks(data + extra, orig, pos, out) == decode_blocks(data, orig, pos, out),
        reached_blocks_short(data + extra, orig, pos, out) == reached_blocks_short(
            data,
            orig,
            pos,
            out,
        ),
    decreases data.len() - pos,
{
    let ext = data + extra;
    if pos < data.len() && out.len() < orig {
        assert(ext[pos] == data[pos]);
        assert(ext[pos + 1] == data[pos + 1]);
        assert(ext[pos + 2] == data[pos + 2]);
        assert(ext[pos + 3] == data[pos + 3]);
        let size = be_u32_at(data, pos);
        let start = pos + 4;
        assert(ext.subrange(start, start + size) =~= data.subrange(start, start + size));
        let block = data.subrange(start, start + size);
        if let Ok(b) = lz4_block_output(block, (orig - out.len()) as usize) {
            decode_blocks_ignores_tail(data, extra, orig, start + size, out + b);
        }
    }
}

/// Bytes after the point where the original size is reached are never
/// read: appending any bytes to such data changes neither what it
/// decompresses to nor whether `decompress` takes it.
pub proof fn bytes_after_the_output_are_ignored(data: Seq<u8>, extra: Seq<u8>)
    requires
        lz4_filter_output(data) matches Ok(o) && o.len() >= be_u32_at(data, 0),
    ensures
        lz4_filter_output(data + extra) == lz4_filter_output(data),
        lz4_input_ok(data + extra) == lz4_input_ok(data),
{
    let ext = data + extra;
    assert(ext[0] == data[0] && ext[1] == data[1] && ext[2] == data[2] && ext[3] == data[3]);
    decode_blocks_ignores_tail(data, extra, be_u32_at(data, 0), 4, Seq::empty());
}

/// The big-endian 32-bit number in `data[at..at + 4]`.
pub fn read_be_u32(data: &[u8], at: usize) -> (r: u32)
    requires
        at + 4 <= data@.len(),
    ensures
        r == be_u32_at(data@, at as int),
{
    let b0 = data[at] as u32;
    let b1 = data[at + 1] as u32;
    let b2 = data[at + 2] as u32;
    let b3 = data[at + 3] as u32;
    b0 * 0x1000000 + b1 * 0x10000 + b2 * 0x100 + b3
}

/// Appends a decompressed block to `output`, or turns the decoder's error
/// into this crate's error, "LZ4: " followed by the decoder's message.
pub fn accept_block(output: &mut Vec<u8>, decoded: Result<Vec<u8>, DecompressError>) -> (r: Result<
    (),
    Error,
>)
    ensures
        r is Ok <==> decoded is Ok,
        decoded matches Ok(d) ==> final(output)@ == old(output)@ + d@,
        decoded is Err ==> final(output)@ == old(output)@,
        decoded matches Err(de) ==> (r matches Err(Error::DecompressionError(m)) && exists|t: String|
            vstd::string::to_string_from_display_ensures::<DecompressError>(&de, t) && m@ == "LZ4: "@
                + t@),
{
    match decoded {
        Ok(mut d) => {
            output.append(&mut d);
            Ok(())
        },
        Err(e) => {
            let mut msg = String::from_str("LZ4: ");
            proof {
                reveal_strlit("LZ4: ");
            }
            let text = e.to_string();
            msg.append(text.as_str());
            assert(vstd::string::to_string_from_display_ensures::<DecompressError>(&e, text));
            Err(Error::DecompressionError(msg))
        },
    }
}

/// Decompress HDF5 LZ4-filtered data.
///
/// The input starts with a 4-byte big-endian original size, followed by
/// one or more `[block_size: u32 BE][compressed_block]` pairs. Blocks are
/// decoded in turn, each with room for what is still missing of the
/// original size, until the data ends or the original size is reached.
pub fn decompress(data: &[u8]) -> (r: Result<Vec<u8>, Error>)
    requires
        data@.len() >= 4 ==> be_u32_at(data@, 0) <= isize::MAX,
        lz4_input_ok(data@),
    ensures
        match r {
            Ok(v) => lz4_filter_output(data@) == Ok::<Seq<u8>, Seq<char>>(v@),
            Err(Error::DecompressionError(m)) => lz4_filter_output(data@) == Err::<
                Seq<u8>,
                Seq<char>,
            >(m@),
            Err(_) => false,
        },
        r matches Ok(v) ==> v@.len() <= be_u32_at(data@, 0),
{
    if data.len() < 4 {
        return Err(Error::DecompressionError(String::from_str("LZ4: input too short for header")));
    }
    let orig_size = read_be_u32(data, 0) as usize;
    let mut output: Vec<u8> = Vec::new();
    let mut pos: usize = 4;
    while pos < data.len() && output.len() < orig_size
        invariant
            4 <= pos <= data@.len(),
            orig_size == be_u32_at(data@, 0),
            orig_size <= isize::MAX,
            reached_blocks_short(data@, orig_size as int, pos as int, output@),
            output@.len() <= orig_size,
            lz4_filter_output(data@) == decode_blocks(
                data@,
                orig_size as int,
                pos as int,
                output@,
            ),
        decreases data@.len() - pos,
    {
        if data.len() - pos < 4 {
            return Err(Error::DecompressionError(String::from_str("LZ4: truncated block header")));
        }
        let block_size = read_be_u32(data, pos) as usize;
        pos = pos + 4;
        if block_size > data.len() - pos {
            return Err(Error::DecompressionError(String::from_str("LZ4: truncated block data")));
        }
        let remaining = orig_size - output.len();
        let block = slice_subrange(data, pos, pos + block_size);
        let decoded = lz4_decompress_block(block, remaining);
        let ghost refused = decoded;
        if let Err(e) = accept_block(&mut output, decoded) {
            proof {
                let de = refused->Err_0;
                let m = e->DecompressionError_0;
                let t = choose|t: String|
                    vstd::string::to_string_from_display_ensures::<DecompressError>(&de, t) && m@
                        == "LZ4: "@ + t@;
                assert(lz4_block_output(block@, remaining) == Err::<Seq<u8>, Seq<char>>(t@));
            }
            return Err(e);
        }
        pos = pos + block_size;
    }
    Ok(output)
}

/// Decoding runs through framed blocks that each decode (with the room the
/// earlier ones leave) and together fall short of the original size, and
/// goes on after them with their outputs appended, whatever follows.
proof fn decode_framed_prefix(
    data: Seq<u8>,
    n: int,
    prefix: Seq<u8>,
    out: Seq<u8>,
    cs: Seq<Seq<u8>>,
    xs: Seq<Seq<u8>>,
    rest: Seq<u8>,
)
    requires
        data == prefix + framed_blocks(cs) + rest,
        blocks_decode(cs, xs, n - out.len()),
        out.len() + flatten_blocks(xs).len() < n,
    ensures
        decode_blocks(data, n, prefix.len() as int, out) == decode_blocks(
            data,
            n,
            (prefix.len() + framed_blocks(cs).len()) as int,
            out + flatten_blocks(xs),
        ),
    decreases cs.len(),
{
    if cs.len() == 0 {
        assert(out + flatten_blocks(xs) =~= out);
    } else {
        let c = cs[0];
        let x = xs[0];
        let pos = prefix.len() as int;
        let hdr = be_bytes(c.len() as int);
        be_bytes_read_back(c.len() as int);
        let prefix2 = prefix + hdr + c;
        assert(data =~= prefix2 + framed_blocks(cs.drop_first()) + rest);
        assert(data[pos] == hdr[0]);
        assert(data[pos + 1] == hdr[1]);
        assert(data[pos + 2] == hdr[2]);
        assert(data[pos + 3] == hdr[3]);
        assert(be_u32_at(data, pos) == c.len());
        assert(data.subrange(pos + 4, pos + 4 + c.len()) =~= c);
        assert(flatten_blocks(xs) == x + flatten_blocks(xs.drop_first()));
        decode_framed_prefix(data, n, prefix2, out + x, cs.drop_first(), xs.drop_first(), rest);
        assert(out + x + flatten_blocks(xs.drop_first()) =~= out + flatten_blocks(xs));
    }
}

/// Data too short to hold the original size is refused with
/// "LZ4: input too short for header".
pub proof fn short_input_is_refused(data: Seq<u8>)
    requires
        data.len() < 4,
    ensures
        lz4_filter_output(data) == Err::<Seq<u8>, Seq<char>>("LZ4: input too short for header"@),
{
}

/// Where the blocks run out before the original size `n` is reached and
/// one to three bytes follow, too few for a block size, the data is refused
/// with "LZ4: truncated block header".
pub proof fn truncated_block_header_is_refused(
    n: int,
    cs: Seq<Seq<u8>>,
    xs: Seq<Seq<u8>>,
    tail: Seq<u8>,
)
    requires
        0 <= n < 0x1_0000_0000,
        blocks_decode(cs, xs, n),
        flatten_blocks(xs).len() < n,
        0 < tail.len() < 4,
    ensures
        lz4_filter_output(be_bytes(n) + framed_blocks(cs) + tail) == Err::<Seq<u8>, Seq<char>>(
            "LZ4: truncated block header"@,
        ),
{
    let data = be_bytes(n) + framed_blocks(cs) + tail;
    be_bytes_read_back(n);
    assert(data[0] == be_bytes(n)[0] && data[1] == be_bytes(n)[1] && data[2] == be_bytes(n)[2]
        && data[3] == be_bytes(n)[3]);
    decode_framed_prefix(data, n, be_bytes(n), Seq::empty(), cs, xs, tail);
}

/// Where the blocks run out before the original size `n` is reached and a
/// block size follows that is larger than the bytes after it, the data is
/// refused with "LZ4: truncated block data".
pub proof fn truncated_block_data_is_refused(
    n: int,
    cs: Seq<Seq<u8>>,
    xs: Seq<Seq<u8>>,
    size: int,
    tail: Seq<u8>,
)
    requires
        0 <= n < 0x1_0000_0000,
        blocks_decode(cs, xs, n),
        flatten_blocks(xs).len() < n,
        tail.len() < size < 0x1_0000_0000,
    ensures
        lz4_filter_output(be_bytes(n) + framed_blocks(cs) + be_bytes(size) + tail) == Err::<
            Seq<u8>,
            Seq<char>,
        >("LZ4: truncated block data"@),
{
    let rest = be_bytes(size) + tail;
    let data = be_bytes(n) + framed_blocks(cs) + rest;
    assert(data =~= be_bytes(n) + framed_blocks(cs) + be_bytes(size) + tail);
    be_bytes_read_back(n);
    be_bytes_read_back(size);
    assert(data[0] == be_bytes(n)[0] && data[1] == be_bytes(n)[1] && data[2] == be_bytes(n)[2]
        && data[3] == be_bytes(n)[3]);
    decode_framed_prefix(data, n, be_bytes(n), Seq::empty(), cs, xs, rest);
    let pos = (4 + framed_blocks(cs).len()) as int;
    assert(data[pos] == rest[0] && data[pos + 1] == rest[1] && data[pos + 2] == rest[2]
        && data[pos + 3] == rest[3]);
}

/// A block that the LZ4 decoder refuses, given the room the blocks before
/// it leave of the original size, makes the data refused with "LZ4: "
/// followed by the text of the decoder's error.
pub proof fn refused_block_is_reported(
    n: int,
    cs: Seq<Seq<u8>>,
    xs: Seq<Seq<u8>>,
    c: Seq<u8>,
    t: Seq<char>,
    tail: Seq<u8>,
)
    requires
        0 <= n < 0x1_0000_0000,
        blocks_decode(cs, xs, n),
        flatten_blocks(xs).len() < n,
        c.len() < 0x1_0000_0000,
        lz4_block_output(c, (n - flatten_blocks(xs).len()) as usize) == Err::<Seq<u8>, Seq<char>>(t),
    ensures
        lz4_filter_output(be_bytes(n) + framed_blocks(cs) + be_bytes(c.len() as int) + c + tail)
            == Err::<Seq<u8>, Seq<char>>("LZ4: "@ + t),
{
    let rest = be_bytes(c.len() as int) + c + tail;
    let data = be_bytes(n) + framed_blocks(cs) + rest;
    assert(data =~= be_bytes(n) + framed_blocks(cs) + be_bytes(c.len() as int) + c + tail);
    be_bytes_read_back(n);
    be_bytes_read_back(c.len() as int);
    assert(data[0] == be_bytes(n)[0] && data[1] == be_bytes(n)[1] && data[2] == be_bytes(n)[2]
        && data[3] == be_bytes(n)[3]);
    decode_framed_prefix(data, n, be_bytes(n), Seq::empty(), cs, xs, rest);
    let pos = (4 + framed_blocks(cs).len()) as int;
    assert(data[pos] == rest[0] && data[pos + 1] == rest[1] && data[pos + 2] == rest[2]
        && data[pos + 3] == rest[3]);
    assert(data.subrange(pos + 4, pos + 4 + c.len()) =~= c);
    assert(Seq::<u8>::empty() + flatten_blocks(xs) =~= flatten_blocks(xs));
}

} // verus!
