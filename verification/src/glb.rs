//! Binary container (GLB) chunk framing: parsing the fixed header, the JSON
//! metadata chunk and the binary blob chunk out of raw bytes, and assembling
//! the three sections back into a well-formed container.

use vstd::prelude::*;

verus! {

/// The container version this library reads and writes.
pub const GLB_VERSION: u32 = 2;

/// How a raw byte buffer fails to be a well-formed GLB container.
#[derive(Clone, Copy, PartialEq, Eq, Structural, Debug)]
pub enum GlbError {
    /// The buffer ends before a complete header or chunk header.
    TooShort,
    /// The first four bytes are not the GLB magic.
    BadMagic,
    /// The version field is not the supported version.
    BadVersion,
    /// The total-length field does not match the byte count of the container.
    LengthMismatch,
    /// The first chunk is not a JSON chunk.
    BadJsonChunk,
    /// The container holds no binary chunk after the JSON chunk.
    MissingBinaryChunk,
    /// The second chunk is not a binary chunk.
    BadBinaryChunk,
    /// The sections are too large for the 32-bit length fields.
    TooLarge,
}

/// The two chunks of a parsed container: raw JSON metadata bytes and the
/// binary blob bytes.
#[derive(Debug)]
pub struct GlbChunks {
    pub json: Vec<u8>,
    pub bin: Vec<u8>,
}

/// A 32-bit little-endian integer read at position `i` of `s`.
pub open spec fn le32_at(s: Seq<u8>, i: int) -> int {
    s[i] + s[i + 1] * 0x100 + s[i + 2] * 0x1_0000 + s[i + 3] * 0x100_0000
}

/// The four little-endian bytes of `n`.
pub open spec fn le32_bytes(n: int) -> Seq<u8> {
    seq![
        (n % 0x100) as u8,
        ((n / 0x100) % 0x100) as u8,
        ((n / 0x1_0000) % 0x100) as u8,
        ((n / 0x100_0000) % 0x100) as u8,
    ]
}

/// The GLB magic, "glTF" in ASCII.
pub open spec fn magic_bytes() -> Seq<u8> {
    seq![0x67u8, 0x6cu8, 0x54u8, 0x46u8]
}

/// The JSON chunk type field, "JSON" in ASCII, little-endian.
pub open spec fn json_chunk_type() -> Seq<u8> {
    seq![0x4au8, 0x53u8, 0x4fu8, 0x4eu8]
}

/// The binary chunk type field, "BIN" and a zero byte, little-endian.
pub open spec fn bin_chunk_type() -> Seq<u8> {
    seq![0x42u8, 0x49u8, 0x4eu8, 0x00u8]
}

/// How many filler bytes take `n` up to a multiple of four.
pub open spec fn pad4_len(n: int) -> int {
    if n % 4 == 0 {
        0
    } else {
        4 - n % 4
    }
}

/// `n` rounded up to a multiple of four.
pub open spec fn align4(n: int) -> int {
    n + pad4_len(n)
}

/// `s` extended with `fill` bytes up to a multiple of four.
pub open spec fn pad4(s: Seq<u8>, fill: u8) -> Seq<u8> {
    s + Seq::new(pad4_len(s.len() as int) as nat, |i: int| fill)
}

/// Total byte count of the container framing `json` and `bin`: the header
/// and two chunks, each chunk with its own eight-byte header and padded body.
pub open spec fn glb_total_len(json: Seq<u8>, bin: Seq<u8>) -> int {
    28 + align4(json.len() as int) + align4(bin.len() as int)
}

/// The container bytes framing `json` and `bin`: header, then the JSON chunk
/// padded with spaces, then the binary chunk padded with zeroes.
pub open spec fn glb_frame(json: Seq<u8>, bin: Seq<u8>) -> Seq<u8> {
    let pj = pad4(json, 0x20u8);
    let pb = pad4(bin, 0x00u8);
    magic_bytes() + le32_bytes(GLB_VERSION as int) + le32_bytes(glb_total_len(json, bin))
        + le32_bytes(pj.len() as int) + json_chunk_type() + pj + le32_bytes(pb.len() as int)
        + bin_chunk_type() + pb
}

/// What `parse_glb` returns on `bytes`: the raw JSON bytes and the blob
/// bytes, or the first framing fault found, checking the header, then the
/// JSON chunk, then the binary chunk.
pub open spec fn parse_glb_spec(bytes: Seq<u8>) -> Result<(Seq<u8>, Seq<u8>), GlbError> {
    if bytes.len() < 12 {
        Err(GlbError::TooShort)
    } else if bytes.subrange(0, 4) != magic_bytes() {
        Err(GlbError::BadMagic)
    } else if le32_at(bytes, 4) != GLB_VERSION {
        Err(GlbError::BadVersion)
    } else if le32_at(bytes, 8) != bytes.len() {
        Err(GlbError::LengthMismatch)
    } else if bytes.len() < 20 {
        Err(GlbError::TooShort)
    } else if bytes.subrange(16, 20) != json_chunk_type() {
        Err(GlbError::BadJsonChunk)
    } else {
        let jlen = le32_at(bytes, 12);
        if 20 + jlen > bytes.len() {
            Err(GlbError::TooShort)
        } else if 20 + jlen == bytes.len() {
            Err(GlbError::MissingBinaryChunk)
        } else if 28 + jlen > bytes.len() {
            Err(GlbError::TooShort)
        } else if bytes.subrange(24 + jlen, 28 + jlen) != bin_chunk_type() {
            Err(GlbError::BadBinaryChunk)
        } else if 28 + jlen + le32_at(bytes, 20 + jlen) != bytes.len() {
            Err(GlbError::LengthMismatch)
        } else {
            Ok(
                (
                    bytes.subrange(20, 20 + jlen),
                    bytes.subrange(28 + jlen, bytes.len() as int),
                ),
            )
        }
    }
}

/// Rounds `n` up to the next multiple of four.
pub fn align_to_multiple_of_four(n: &mut u32)
    requires
        *old(n) <= u32::MAX - 3,
    ensures
        *final(n) == align4(*old(n) as int),
{
    let r = *n % 4;
    if r != 0 {
        *n = *n + (4 - r);
    }
}

/// Pads the length of a byte vector to a multiple of four bytes with zeroes.
pub fn pad_byte_vector(vec: &mut Vec<u8>)
    requires
        old(vec)@.len() <= usize::MAX - 3,
    ensures
        final(vec)@ == pad4(old(vec)@, 0u8),
{
    let base = vec.len();
    while vec.len() % 4 != 0
        invariant
            base == old(vec)@.len(),
            base <= vec@.len() <= align4(base as int),
            vec@.subrange(0, base as int) == old(vec)@,
            forall|i: int| base <= i < vec@.len() ==> vec@[i] == 0u8,
        decreases align4(base as int) - vec@.len(),
    {
        vec.push(0u8);
    }
    proof {
        assert(vec@.len() == align4(base as int));
        assert(vec@ =~= pad4(old(vec)@, 0u8));
    }
}

/// Reads the 32-bit little-endian integer at position `i`.
fn read_le32(bytes: &Vec<u8>, i: usize) -> (r: u32)
    requires
        i + 4 <= bytes@.len(),
    ensures
        r == le32_at(bytes@, i as int),
{
    let n = bytes.len();
    let b0 = bytes[i] as u32;
    let b1 = bytes[i + 1] as u32;
    let b2 = bytes[i + 2] as u32;
    let b3 = bytes[i + 3] as u32;
    b0 + b1 * 0x100 + b2 * 0x1_0000 + b3 * 0x100_0000
}

/// Appends the four little-endian bytes of `n`.
fn push_le32(out: &mut Vec<u8>, n: u32)
    requires
        old(out)@.len() + 4 <= usize::MAX,
    ensures
        final(out)@ == old(out)@ + le32_bytes(n as int),
{
    out.push((n % 0x100) as u8);
    out.push(((n / 0x100) % 0x100) as u8);
    out.push(((n / 0x1_0000) % 0x100) as u8);
    out.push(((n / 0x100_0000) % 0x100) as u8);
    proof {
        assert(final(out)@ =~= old(out)@ + le32_bytes(n as int));
    }
}

/// The little-endian encoding of a 32-bit value reads back as that value.
pub proof fn lemma_le32_round_trip(n: u32)
    ensures
        le32_at(le32_bytes(n as int), 0) == n,
{
    assert(n % 0x100 + ((n / 0x100) % 0x100) * 0x100 + ((n / 0x1_0000) % 0x100) * 0x1_0000 + ((n
        / 0x100_0000) % 0x100) * 0x100_0000 == n) by (bit_vector);
}

/// Copies `len` bytes of `bytes` starting at `start` into a fresh vector.
pub fn copy_range(bytes: &Vec<u8>, start: usize, len: usize) -> (r: Vec<u8>)
    requires
        start + len <= bytes@.len(),
    ensures
        r@ == bytes@.subrange(start as int, start as int + len as int),
{
    let n = bytes.len();
    let mut r: Vec<u8> = Vec::new();
    let mut k: usize = 0;
    while k < len
        invariant
            k <= len,
            start + len <= n == bytes@.len(),
            r@ == bytes@.subrange(start as int, start as int + k as int),
        decreases len - k,
    {
        r.push(bytes[start + k]);
        k = k + 1;
        proof {
            assert(r@ =~= bytes@.subrange(start as int, start as int + k as int));
        }
    }
    r
}

/// Appends `data` and then `fill` bytes up to a multiple of four of
/// `data`'s length.
fn push_padded(out: &mut Vec<u8>, data: &Vec<u8>, fill: u8)
    requires
        old(out)@.len() + align4(data@.len() as int) <= usize::MAX,
    ensures
        final(out)@ == old(out)@ + pad4(data@, fill),
{
    let base = out.len();
    let dlen = data.len();
    let mut k: usize = 0;
    while k < dlen
        invariant
            k <= dlen == data@.len(),
            base == old(out)@.len(),
            base + align4(data@.len() as int) <= usize::MAX,
            out@ == old(out)@ + data@.subrange(0, k as int),
        decreases dlen - k,
    {
        out.push(data[k]);
        k = k + 1;
        proof {
            assert(out@ =~= old(out)@ + data@.subrange(0, k as int));
        }
    }
    proof {
        assert(data@.subrange(0, data@.len() as int) =~= data@);
        assert(out@.subrange(0, base as int + data@.len() as int) =~= out@);
    }
    let pad = (4 - dlen % 4) % 4;
    proof {
        assert(pad == pad4_len(data@.len() as int));
    }
    let mut p: usize = 0;
    while p < pad
        invariant
            p <= pad,
            pad == pad4_len(data@.len() as int),
            base == old(out)@.len(),
            base + align4(data@.len() as int) <= usize::MAX,
            out@.len() == base + data@.len() + p,
            out@.subrange(0, base as int + data@.len() as int) == old(out)@ + data@,
            forall|i: int| base + data@.len() <= i < out@.len() ==> out@[i] == fill,
        decreases pad - p,
    {
        out.push(fill);
        p = p + 1;
        proof {
            assert(out@.subrange(0, base as int + data@.len() as int) =~= old(out)@ + data@);
        }
    }
    proof {
        assert forall|i: int| 0 <= i < out@.len() implies out@[i] == (old(out)@ + pad4(
            data@,
            fill,
        ))[i] by {
            if i < base + data@.len() {
                assert(out@[i] == out@.subrange(0, base as int + data@.len() as int)[i]);
            }
        }
        assert(final(out)@ =~= old(out)@ + pad4(data@, fill));
    }
}

/// Padding invariant: the JSON chunk and the binary blob chunk of an
/// assembled container are emitted with lengths that are multiples of four.
pub proof fn lemma_emitted_chunks_padded(json: Seq<u8>, bin: Seq<u8>)
    ensures
        pad4(json, 0x20u8).len() % 4 == 0,
        pad4(bin, 0x00u8).len() % 4 == 0,
        glb_total_len(json, bin) % 4 == 0,
{
}

/// Round trip: a container assembled from any JSON metadata bytes and any
/// binary blob parses back without error, yielding the two padded chunks.
#[verifier::rlimit(100)]
pub proof fn lemma_frame_round_trip(json: Seq<u8>, bin: Seq<u8>)
    requires
        glb_total_len(json, bin) <= u32::MAX,
    ensures
        parse_glb_spec(glb_frame(json, bin)) == Ok::<_, GlbError>(
            (pad4(json, 0x20u8), pad4(bin, 0x00u8)),
        ),
{
    let pj = pad4(json, 0x20u8);
    let pb = pad4(bin, 0x00u8);
    let total = glb_total_len(json, bin);
    let s = glb_frame(json, bin);
    assert(s.len() == 28 + pj.len() + pb.len());
    assert(s.len() == total);
    assert(s.subrange(0, 4) =~= magic_bytes());
    assert(s.subrange(4, 8) =~= le32_bytes(GLB_VERSION as int));
    assert(s.subrange(8, 12) =~= le32_bytes(total));
    assert(s.subrange(12, 16) =~= le32_bytes(pj.len() as int));
    assert(s.subrange(16, 20) =~= json_chunk_type());
    assert(s.subrange(20, 20 + pj.len() as int) =~= pj);
    assert(s.subrange(20 + pj.len() as int, 24 + pj.len() as int) =~= le32_bytes(pb.len() as int));
    assert(s.subrange(24 + pj.len() as int, 28 + pj.len() as int) =~= bin_chunk_type());
    assert(s.subrange(28 + pj.len() as int, s.len() as int) =~= pb);
    lemma_le32_round_trip(GLB_VERSION);
    lemma_le32_round_trip(total as u32);
    lemma_le32_round_trip(pj.len() as u32);
    lemma_le32_round_trip(pb.len() as u32);
    assert(le32_at(s, 4) == le32_at(le32_bytes(GLB_VERSION as int), 0));
    assert(le32_at(s, 8) == le32_at(le32_bytes(total), 0));
    assert(le32_at(s, 12) == le32_at(le32_bytes(pj.len() as int), 0));
    assert(le32_at(s, 20 + pj.len() as int) == le32_at(le32_bytes(pb.len() as int), 0));
    assert(le32_at(s, 4) == GLB_VERSION);
    assert(le32_at(s, 8) == s.len());
    assert(le32_at(s, 12) == pj.len());
    assert(le32_at(s, 20 + pj.len() as int) == pb.len());
}

/// Parses a GLB container into its JSON metadata bytes and its binary blob
/// bytes, rejecting a buffer whose header, total length or chunk framing is
/// wrong, and a container without a binary chunk.
pub fn parse_glb(bytes: &Vec<u8>) -> (r: Result<GlbChunks, GlbError>)
    ensures
        match r {
            Ok(chunks) => parse_glb_spec(bytes@) == Ok::<_, GlbError>((chunks.json@, chunks.bin@)),
            Err(e) => parse_glb_spec(bytes@) == Err::<(Seq<u8>, Seq<u8>), _>(e),
        },
{
    let n = bytes.len();
    if n < 12 {
        return Err(GlbError::TooShort);
    }
    if !(bytes[0] == 0x67 && bytes[1] == 0x6c && bytes[2] == 0x54 && bytes[3] == 0x46) {
        proof {
            assert(bytes@.subrange(0, 4) != magic_bytes());
        }
        return Err(GlbError::BadMagic);
    }
    proof {
        assert(bytes@.subrange(0, 4) =~= magic_bytes());
    }
    let version = read_le32(bytes, 4);
    if version != GLB_VERSION {
        return Err(GlbError::BadVersion);
    }
    let total = read_le32(bytes, 8);
    if !(total as usize == n) {
        return Err(GlbError::LengthMismatch);
    }
    if n < 20 {
        return Err(GlbError::TooShort);
    }
    if !(bytes[16] == 0x4a && bytes[17] == 0x53 && bytes[18] == 0x4f && bytes[19] == 0x4e) {
        proof {
            assert(bytes@.subrange(16, 20) != json_chunk_type());
        }
        return Err(GlbError::BadJsonChunk);
    }
    proof {
        assert(bytes@.subrange(16, 20) =~= json_chunk_type());
    }
    let jlen32 = read_le32(bytes, 12);
    let jlen = jlen32 as usize;
    if jlen > n - 20 {
        return Err(GlbError::TooShort);
    }
    let json_end = 20 + jlen;
    if json_end == n {
        return Err(GlbError::MissingBinaryChunk);
    }
    if n - json_end < 8 {
        return Err(GlbError::TooShort);
    }
    if !(bytes[json_end + 4] == 0x42 && bytes[json_end + 5] == 0x49 && bytes[json_end + 6] == 0x4e
        && bytes[json_end + 7] == 0x00) {
        proof {
            assert(bytes@.subrange(24 + jlen as int, 28 + jlen as int) != bin_chunk_type());
        }
        return Err(GlbError::BadBinaryChunk);
    }
    proof {
        assert(bytes@.subrange(24 + jlen as int, 28 + jlen as int) =~= bin_chunk_type());
    }
    let blen32 = read_le32(bytes, json_end);
    let blen = blen32 as usize;
    if !(blen == n - json_end - 8) {
        return Err(GlbError::LengthMismatch);
    }
    let json = copy_range(bytes, 20, jlen);
    let bin = copy_range(bytes, json_end + 8, blen);
    proof {
        assert(bytes@.subrange(28 + jlen as int, bytes@.len() as int) =~= bytes@.subrange(
            28 + jlen as int,
            28 + jlen as int + blen as int,
        ));
    }
    Ok(GlbChunks { json, bin })
}

/// Assembles a GLB container around raw JSON metadata bytes and a binary
/// blob: the JSON chunk is padded with spaces, the blob with zeroes, and the
/// header's total length covers the header and both padded chunks. Fails
/// only when the framed container would not fit the 32-bit length fields.
#[verifier::rlimit(50)]
pub fn assemble_glb(json: &Vec<u8>, bin: &Vec<u8>) -> (r: Result<Vec<u8>, GlbError>)
    ensures
        glb_total_len(json@, bin@) <= u32::MAX ==> (r matches Ok(v) && v@ == glb_frame(
            json@,
            bin@,
        )),
        glb_total_len(json@, bin@) > u32::MAX ==> r == Err::<Vec<u8>, GlbError>(GlbError::TooLarge),
{
    let jlen64 = json.len() as u64;
    let blen64 = bin.len() as u64;
    if jlen64 > u32::MAX as u64 || blen64 > u32::MAX as u64 {
        return Err(GlbError::TooLarge);
    }
    let jal64: u64 = jlen64 + (4 - jlen64 % 4) % 4;
    let bal64: u64 = blen64 + (4 - blen64 % 4) % 4;
    proof {
        assert(jal64 == align4(json@.len() as int));
        assert(bal64 == align4(bin@.len() as int));
    }
    let total64: u64 = 28 + jal64 + bal64;
    if total64 > u32::MAX as u64 {
        return Err(GlbError::TooLarge);
    }
    let mut jpad32: u32 = json.len() as u32;
    align_to_multiple_of_four(&mut jpad32);
    let jpad = jpad32 as usize;
    let mut bpad32: u32 = bin.len() as u32;
    align_to_multiple_of_four(&mut bpad32);
    let bpad = bpad32 as usize;
    let total: u32 = 28 + jpad32 + bpad32;
    let mut out: Vec<u8> = Vec::new();
    out.push(0x67);
    out.push(0x6c);
    out.push(0x54);
    out.push(0x46);
    proof {
        assert(out@ =~= magic_bytes());
    }
    push_le32(&mut out, GLB_VERSION);
    push_le32(&mut out, total);
    push_le32(&mut out, jpad32);
    out.push(0x4a);
    out.push(0x53);
    out.push(0x4f);
    out.push(0x4e);
    proof {
        assert(out@ =~= magic_bytes() + le32_bytes(GLB_VERSION as int) + le32_bytes(total as int)
            + le32_bytes(jpad as int) + json_chunk_type());
    }
    push_padded(&mut out, json, 0x20);
    push_le32(&mut out, bpad32);
    out.push(0x42);
    out.push(0x49);
    out.push(0x4e);
    out.push(0x00);
    proof {
        assert(out@ =~= magic_bytes() + le32_bytes(GLB_VERSION as int) + le32_bytes(total as int)
            + le32_bytes(jpad as int) + json_chunk_type() + pad4(json@, 0x20u8) + le32_bytes(
            bpad as int,
        ) + bin_chunk_type());
    }
    push_padded(&mut out, bin, 0x00);
    proof {
        assert(jpad == pad4(json@, 0x20u8).len());
        assert(bpad == pad4(bin@, 0x00u8).len());
        assert(total == glb_total_len(json@, bin@));
        assert(out@ =~= glb_frame(json@, bin@));
    }
    Ok(out)
}

} // verus!
