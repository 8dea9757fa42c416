//! Save-state files: the RetroArch `RASTATE` container, its RZIP
//! compression wrapper, timestamped file names and their ordering.
use vstd::prelude::*;
use crate::codec::{compress, inflate_once, zlib_compress, zlib_decompress};
use crate::pathname::{file_name, file_name_str};
use crate::text::{
    all_digits, decimal, digits_value, is_digit, lemma_digits_value_prefix_monotone,
    parse_u32_digits, push_chars, push_decimal, push_str, str_chars, string_from_chars,
};

verus! {

// ── Little-endian integers ─────────────────────────────────────────────────

/// The `u32` whose little-endian bytes are `b0..b3`.
pub open spec fn le32(b0: u8, b1: u8, b2: u8, b3: u8) -> u32 {
    (b0 as u32) | ((b1 as u32) << 8u32) | ((b2 as u32) << 16u32) | ((b3 as u32) << 24u32)
}

/// The little-endian bytes of `n`.
pub open spec fn le32_bytes(n: u32) -> Seq<u8> {
    seq![
        (n & 0xffu32) as u8,
        ((n >> 8u32) & 0xffu32) as u8,
        ((n >> 16u32) & 0xffu32) as u8,
        ((n >> 24u32) & 0xffu32) as u8,
    ]
}

/// The `u32` stored little-endian at `pos` in `b`.
pub open spec fn le32_at(b: Seq<u8>, pos: int) -> u32 {
    le32(b[pos], b[pos + 1], b[pos + 2], b[pos + 3])
}

/// The `u64` stored little-endian at `pos` in `b`.
pub open spec fn le64_at(b: Seq<u8>, pos: int) -> u64 {
    (le32_at(b, pos) as u64) | ((le32_at(b, pos + 4) as u64) << 32u64)
}

/// The little-endian bytes of a `u64`.
pub open spec fn le64_bytes(n: u64) -> Seq<u8> {
    le32_bytes((n & 0xffff_ffffu64) as u32) + le32_bytes((n >> 32u64) as u32)
}

pub proof fn lemma_le32_roundtrip(n: u32)
    ensures
        le32(
            (n & 0xffu32) as u8,
            ((n >> 8u32) & 0xffu32) as u8,
            ((n >> 16u32) & 0xffu32) as u8,
            ((n >> 24u32) & 0xffu32) as u8,
        ) == n,
{
    assert(((((n & 0xffu32) as u8) as u32) | (((((n >> 8u32) & 0xffu32) as u8) as u32) << 8u32)
        | (((((n >> 16u32) & 0xffu32) as u8) as u32) << 16u32) | (((((n >> 24u32) & 0xffu32)
        as u8) as u32) << 24u32)) == n) by (bit_vector);
}

pub proof fn lemma_le64_roundtrip(n: u64)
    ensures
        le64_at(le64_bytes(n), 0) == n,
{
    let lo = (n & 0xffff_ffffu64) as u32;
    let hi = (n >> 32u64) as u32;
    lemma_le32_roundtrip(lo);
    lemma_le32_roundtrip(hi);
    let b = le64_bytes(n);
    assert(le32_at(b, 0) == lo);
    assert(le32_at(b, 4) == hi);
    assert(((((n & 0xffff_ffffu64) as u32) as u64) | ((((n >> 32u64) as u32) as u64) << 32u64))
        == n) by (bit_vector);
}

/// Reads the little-endian `u32` at `pos`.
pub fn read_le32(bytes: &[u8], pos: usize) -> (r: u32)
    requires
        pos + 4 <= bytes@.len(),
    ensures
        r == le32_at(bytes@, pos as int),
{
    (bytes[pos] as u32) | ((bytes[pos + 1] as u32) << 8u32) | ((bytes[pos + 2] as u32) << 16u32)
        | ((bytes[pos + 3] as u32) << 24u32)
}

/// Reads the little-endian `u64` at `pos`.
pub fn read_le64(bytes: &[u8], pos: usize) -> (r: u64)
    requires
        pos + 8 <= bytes@.len(),
    ensures
        r == le64_at(bytes@, pos as int),
{
    let n = bytes.len();
    let lo = read_le32(bytes, pos);
    let hi = read_le32(bytes, pos + 4);
    (lo as u64) | ((hi as u64) << 32u64)
}

/// Appends the little-endian bytes of `n`.
pub fn push_le32(out: &mut Vec<u8>, n: u32)
    ensures
        final(out)@ == old(out)@ + le32_bytes(n),
{
    out.push((n & 0xff) as u8);
    out.push(((n >> 8u32) & 0xff) as u8);
    out.push(((n >> 16u32) & 0xff) as u8);
    out.push(((n >> 24u32) & 0xff) as u8);
    assert(final(out)@ =~= old(out)@ + le32_bytes(n));
}

/// Appends the little-endian bytes of `n`.
pub fn push_le64(out: &mut Vec<u8>, n: u64)
    ensures
        final(out)@ == old(out)@ + le64_bytes(n),
{
    push_le32(out, (n & 0xffff_ffff) as u32);
    push_le32(out, (n >> 32u64) as u32);
    assert(final(out)@ =~= old(out)@ + le64_bytes(n));
}

/// Appends all of `data` to `out`.
pub fn push_bytes(out: &mut Vec<u8>, data: &[u8])
    ensures
        final(out)@ == old(out)@ + data@,
{
    let ghost start = out@;
    let mut i: usize = 0;
    while i < data.len()
        invariant
            i <= data@.len(),
            out@ == start + data@.subrange(0, i as int),
        decreases data.len() - i,
    {
        out.push(data[i]);
        i += 1;
        assert(out@ =~= start + data@.subrange(0, i as int));
    }
    assert(data@.subrange(0, data@.len() as int) =~= data@);
}

// ── Core state access ──────────────────────────────────────────────────────

/// Access to a running core's serialized state.
pub trait StateBackend {
    /// Writes the core state into `data`; `false` when the core cannot.
    /// A slice is never resized through a mutable borrow, so `data` keeps
    /// its length whatever the core does.
    fn serialize(&self, data: &mut [u8]) -> (r: bool)
        ensures
            final(data)@.len() == old(data)@.len(),
    ;

    /// Restores the core state from `data`; `false` when the core refuses it.
    fn unserialize(&self, data: &[u8]) -> bool;
}

// ── The RASTATE container ──────────────────────────────────────────────────

/// Format version of the containers this crate writes and reads.
pub const RASTATE_VERSION: u8 = 1;

/// Largest state file accepted from disk (256 MiB).
pub const MAX_STATE_FILE_SIZE: usize = 268435456;

/// `RASTATE`
pub open spec fn rastate_tag() -> Seq<u8> {
    seq![0x52u8, 0x41u8, 0x53u8, 0x54u8, 0x41u8, 0x54u8, 0x45u8]
}

/// `MEM `
pub open spec fn mem_tag() -> Seq<u8> {
    seq![0x4du8, 0x45u8, 0x4du8, 0x20u8]
}

/// `END `
pub open spec fn end_tag() -> Seq<u8> {
    seq![0x45u8, 0x4eu8, 0x44u8, 0x20u8]
}

/// Smallest multiple of eight that is at least `n`.
pub open spec fn round_up8(n: int) -> int {
    if n % 8 == 0 {
        n
    } else {
        n + (8 - n % 8)
    }
}

/// The container `encode` writes around a core's serialized state: the
/// identifier, one `MEM` block padded to eight bytes, and an empty `END` block.
pub open spec fn encoded(payload: Seq<u8>) -> Seq<u8> {
    rastate_tag() + seq![1u8] + mem_tag() + le32_bytes(payload.len() as u32) + payload
        + Seq::new((round_up8(payload.len() as int) - payload.len()) as nat, |i: int| 0u8)
        + end_tag() + le32_bytes(0u32)
}

#[derive(Debug)]
pub enum StateError {
    Io(String),
    ReadDir { path: String, message: String },
    NotAState,
    UnsupportedVersion(u8),
    Truncated,
    TooLarge { size: usize, max: usize },
    SerializationFailed,
    UnserializationFailed,
}

/// Wraps a core's serialized state in a RASTATE container.
pub fn encode(payload: &[u8]) -> (r: Result<Vec<u8>, StateError>)
    ensures
        payload@.len() <= u32::MAX ==> (r matches Ok(v) && v@ == encoded(payload@)),
        payload@.len() > u32::MAX ==> (r matches Err(StateError::TooLarge { size, max }) && size
            == payload@.len() && max == u32::MAX),
{
    if payload.len() > 0xffff_ffffusize {
        return Err(StateError::TooLarge { size: payload.len(), max: 0xffff_ffffusize });
    }
    let len: u32 = payload.len() as u32;
    let mut out: Vec<u8> = Vec::new();
    out.push(0x52);
    out.push(0x41);
    out.push(0x53);
    out.push(0x54);
    out.push(0x41);
    out.push(0x54);
    out.push(0x45);
    out.push(RASTATE_VERSION);
    out.push(0x4d);
    out.push(0x45);
    out.push(0x4d);
    out.push(0x20);
    push_le32(&mut out, len);
    push_bytes(&mut out, payload);
    let pad: usize = (8 - payload.len() % 8) % 8;
    let mut i: usize = 0;
    let ghost before_pad = out@;
    while i < pad
        invariant
            i <= pad,
            out@ == before_pad + Seq::new(i as nat, |k: int| 0u8),
        decreases pad - i,
    {
        out.push(0);
        i += 1;
        assert(out@ =~= before_pad + Seq::new(i as nat, |k: int| 0u8));
    }
    out.push(0x45);
    out.push(0x4e);
    out.push(0x44);
    out.push(0x20);
    push_le32(&mut out, 0);
    assert(round_up8(payload@.len() as int) - payload@.len() == pad);
    assert(out@ =~= encoded(payload@));
    Ok(out)
}

/// Where the payload of the last `MEM` block lies, scanning the blocks from
/// `pos`; `Err` when a block claims more bytes than remain.
pub open spec fn scan_blocks(b: Seq<u8>, pos: int, found: Option<(int, int)>) -> Result<
    Option<(int, int)>,
    (),
>
    decreases b.len() - pos,
{
    if pos < 0 || pos + 8 > b.len() {
        Ok(found)
    } else if b.subrange(pos, pos + 4) == end_tag() {
        Ok(found)
    } else {
        let start = pos + 8;
        let len = le32_at(b, pos + 4) as int;
        let remaining = b.len() - start;
        if len > remaining {
            Err(())
        } else {
            let next = if b.subrange(pos, pos + 4) == mem_tag() {
                Some((start, start + len))
            } else {
                found
            };
            let step = if round_up8(len) < remaining {
                round_up8(len)
            } else {
                remaining
            };
            scan_blocks(b, start + step, next)
        }
    }
}

/// The core state a RASTATE container holds, or why it holds none.
pub open spec fn parsed_state(b: Seq<u8>) -> Result<Seq<u8>, StateError> {
    if b.len() < 8 || b.subrange(0, 7) != rastate_tag() {
        Err(StateError::NotAState)
    } else if b[7] != 1 {
        Err(StateError::UnsupportedVersion(b[7]))
    } else {
        match scan_blocks(b, 8, None) {
            Ok(Some((a, e))) => Ok(b.subrange(a, e)),
            Ok(None) => Err(StateError::NotAState),
            Err(_) => Err(StateError::Truncated),
        }
    }
}

/// Whether `b` holds `tag` at `pos`.
fn tag_at(b: &[u8], pos: usize, t0: u8, t1: u8, t2: u8, t3: u8) -> (r: bool)
    requires
        pos + 4 <= b@.len(),
    ensures
        r == (b@.subrange(pos as int, pos + 4) == seq![t0, t1, t2, t3]),
{
    let r = b[pos] == t0 && b[pos + 1] == t1 && b[pos + 2] == t2 && b[pos + 3] == t3;
    assert(r ==> b@.subrange(pos as int, pos + 4) =~= seq![t0, t1, t2, t3]);
    assert(b@.subrange(pos as int, pos + 4) == seq![t0, t1, t2, t3] ==> b@[pos as int] == t0
        && b@[pos + 1] == t1 && b@[pos + 2] == t2 && b@[pos + 3] == t3) by {
        if b@.subrange(pos as int, pos + 4) == seq![t0, t1, t2, t3] {
            assert(b@.subrange(pos as int, pos + 4)[0] == t0);
            assert(b@.subrange(pos as int, pos + 4)[1] == t1);
            assert(b@.subrange(pos as int, pos + 4)[2] == t2);
            assert(b@.subrange(pos as int, pos + 4)[3] == t3);
        }
    }
    r
}

/// Extracts the core state from a RASTATE container: the payload of its
/// last `MEM` block, stopping at an `END` block or the end of the data.
pub fn parse_state(bytes: &[u8]) -> (r: Result<&[u8], StateError>)
    ensures
        match (r, parsed_state(bytes@)) {
            (Ok(p), Ok(q)) => p@ == q,
            (Err(e), Err(f)) => e == f,
            _ => false,
        },
{
    if bytes.len() < 8 || !(bytes[0] == 0x52 && bytes[1] == 0x41 && bytes[2] == 0x53 && bytes[3]
        == 0x54 && bytes[4] == 0x41 && bytes[5] == 0x54 && bytes[6] == 0x45) {
        proof {
            if bytes@.len() >= 8 && bytes@.subrange(0, 7) == rastate_tag() {
                assert(bytes@.subrange(0, 7)[0] == 0x52u8);
                assert(bytes@.subrange(0, 7)[1] == 0x41u8);
                assert(bytes@.subrange(0, 7)[2] == 0x53u8);
                assert(bytes@.subrange(0, 7)[3] == 0x54u8);
                assert(bytes@.subrange(0, 7)[4] == 0x41u8);
                assert(bytes@.subrange(0, 7)[5] == 0x54u8);
                assert(bytes@.subrange(0, 7)[6] == 0x45u8);
            }
        }
        return Err(StateError::NotAState);
    }
    assert(bytes@.subrange(0, 7) =~= rastate_tag());
    if bytes[7] != RASTATE_VERSION {
        return Err(StateError::UnsupportedVersion(bytes[7]));
    }
    let mut pos: usize = 8;
    let mut start: usize = 0;
    let mut end: usize = 0;
    let mut found = false;
    let ghost goal = scan_blocks(bytes@, 8, None);
    while bytes.len() - pos >= 8
        invariant
            8 <= pos <= bytes@.len(),
            bytes@.subrange(0, 7) == rastate_tag(),
            bytes@[7] == 1u8,
            goal == scan_blocks(bytes@, 8, None),
            found ==> start <= end <= bytes@.len(),
            goal == scan_blocks(
                bytes@,
                pos as int,
                if found {
                    Some((start as int, end as int))
                } else {
                    None
                },
            ),
        ensures
            found ==> start <= end <= bytes@.len(),
            goal == Ok::<Option<(int, int)>, ()>(
                if found {
                    Some((start as int, end as int))
                } else {
                    None
                },
            ),
        decreases bytes.len() - pos,
    {
        if tag_at(bytes, pos, 0x45, 0x4e, 0x44, 0x20) {
            assert(bytes@.subrange(pos as int, pos + 4) == end_tag());
            break;
        }
        let block_len = read_le32(bytes, pos + 4);
        let block_start = pos + 8;
        let remaining = bytes.len() - block_start;
        if block_len as usize > remaining {
            assert(goal == Err::<Option<(int, int)>, ()>(()));
            return Err(StateError::Truncated);
        }
        let len = block_len as usize;
        if tag_at(bytes, pos, 0x4d, 0x45, 0x4d, 0x20) {
            assert(bytes@.subrange(pos as int, pos + 4) == mem_tag());
            start = block_start;
            end = block_start + len;
            found = true;
        }
        let pad = (8 - len % 8) % 8;
        let step = if pad >= remaining - len {
            remaining
        } else {
            len + pad
        };
        assert(round_up8(len as int) == len + pad);
        pos = block_start + step;
    }
    if found {
        Ok(&bytes[start..end])
    } else {
        Err(StateError::NotAState)
    }
}

/// Reading back a container written by `encode` yields exactly the state
/// that was encoded.
pub proof fn lemma_parse_encoded(payload: Seq<u8>)
    requires
        payload.len() <= u32::MAX,
    ensures
        parsed_state(encoded(payload)) == Ok::<Seq<u8>, StateError>(payload),
{
    let b = encoded(payload);
    let n = payload.len() as int;
    let pad = round_up8(n) - n;
    assert(0 <= pad < 8);
    assert(b.len() == 16 + n + pad + 8);
    assert(b.subrange(0, 7) =~= rastate_tag());
    assert(b[7] == 1u8);
    assert(b.subrange(8, 12) =~= mem_tag());
    lemma_le32_roundtrip(payload.len() as u32);
    assert(le32_at(b, 12) == payload.len() as u32);
    assert(mem_tag() != end_tag()) by {
        assert(mem_tag()[0] != end_tag()[0]);
    }
    let end_pos = 16 + n + pad;
    assert(b.subrange(end_pos, end_pos + 4) =~= end_tag());
    assert(round_up8(n) < b.len() - 16);
    assert(scan_blocks(b, end_pos, Some((16, 16 + n))) == Ok::<
        Option<(int, int)>,
        (),
    >(Some((16, 16 + n))));
    assert(scan_blocks(b, 8, None) == scan_blocks(b, end_pos, Some((16, 16 + n))));
    assert(b.subrange(16, 16 + n) =~= payload);
}


// ── RZIP ───────────────────────────────────────────────────────────────────

/// Uncompressed bytes per RZIP chunk that `rzip_wrap` writes (128 KiB).
pub const RZIP_DEFAULT_CHUNK_SIZE: usize = 131072;
/// Largest chunk size an RZIP header may announce (64 MiB).
pub const RZIP_MAX_CHUNK_SIZE: usize = 67108864;
/// Largest total an RZIP header may announce: a state file's limit plus the
/// 32 bytes a container adds around a core state.
pub const MAX_RZIP_CONTENT: usize = 268435488;

/// `#RZIPv\x01#`
pub open spec fn rzip_magic() -> Seq<u8> {
    seq![0x23u8, 0x52u8, 0x5au8, 0x49u8, 0x50u8, 0x76u8, 0x01u8, 0x23u8]
}

/// One compressed chunk as RZIP stores it: its length, then the stream.
pub open spec fn rzip_chunk(chunk: Seq<u8>) -> Seq<u8> {
    le32_bytes(zlib_compress(chunk).len() as u32) + zlib_compress(chunk)
}

/// The chunk records for `plain`, split into pieces of `size` bytes.
pub open spec fn rzip_body(plain: Seq<u8>, size: nat) -> Seq<u8>
    decreases plain.len(),
{
    if plain.len() == 0 || size == 0 {
        Seq::empty()
    } else {
        let k = if size < plain.len() {
            size as int
        } else {
            plain.len() as int
        };
        rzip_chunk(plain.take(k)) + rzip_body(plain.skip(k), size)
    }
}

/// The RZIP file `rzip_wrap` writes for `plain`.
pub open spec fn rzip_wrapped(plain: Seq<u8>) -> Seq<u8> {
    rzip_magic() + le32_bytes(131072u32) + le64_bytes(plain.len() as u64) + rzip_body(
        plain,
        131072,
    )
}

/// Whether every 128 KiB chunk of `plain` compresses to a non-empty stream
/// of at most twice the chunk size, the bound a reader enforces.
pub open spec fn rzip_chunks_fit(plain: Seq<u8>) -> bool
    decreases plain.len(),
{
    if plain.len() == 0 {
        true
    } else {
        let k = if 131072 < plain.len() {
            131072int
        } else {
            plain.len() as int
        };
        0 < zlib_compress(plain.take(k)).len() <= 262144 && rzip_chunks_fit(plain.skip(k))
    }
}

/// Whether every 128 KiB chunk of `plain` decodes back from its stream.
pub open spec fn rzip_chunks_roundtrip(plain: Seq<u8>) -> bool
    decreases plain.len(),
{
    if plain.len() == 0 {
        true
    } else {
        let k = if 131072 < plain.len() {
            131072int
        } else {
            plain.len() as int
        };
        zlib_decompress(zlib_compress(plain.take(k))) == Some(plain.take(k))
            && rzip_chunks_roundtrip(plain.skip(k))
    }
}

/// Whether `bytes` begins with the RZIP magic.
pub fn is_rzip(bytes: &[u8]) -> (r: bool)
    ensures
        r == (bytes@.len() >= 8 && bytes@.subrange(0, 8) == rzip_magic()),
{
    let r = bytes.len() >= 8 && bytes[0] == 0x23 && bytes[1] == 0x52 && bytes[2] == 0x5a
        && bytes[3] == 0x49 && bytes[4] == 0x50 && bytes[5] == 0x76 && bytes[6] == 0x01
        && bytes[7] == 0x23;
    proof {
        if r {
            assert(bytes@.subrange(0, 8) =~= rzip_magic());
        }
        if bytes@.len() >= 8 && bytes@.subrange(0, 8) == rzip_magic() {
            let h = bytes@.subrange(0, 8);
            assert(h[0] == 0x23u8 && h[1] == 0x52u8 && h[2] == 0x5au8 && h[3] == 0x49u8);
            assert(h[4] == 0x50u8 && h[5] == 0x76u8 && h[6] == 0x01u8 && h[7] == 0x23u8);
        }
    }
    r
}

/// Compresses `plain` into an RZIP file: magic, chunk size, total size, and
/// each 128 KiB chunk as a length-prefixed zlib stream.
pub fn rzip_wrap(plain: &[u8]) -> (r: Vec<u8>)
    ensures
        r@ == rzip_wrapped(plain@),
        0 < plain@.len() <= MAX_RZIP_CONTENT ==> rzip_unwrapped(r@) == Ok::<Seq<u8>, StateError>(
            plain@,
        ),
{
    let mut out: Vec<u8> = Vec::new();
    out.push(0x23);
    out.push(0x52);
    out.push(0x5a);
    out.push(0x49);
    out.push(0x50);
    out.push(0x76);
    out.push(0x01);
    out.push(0x23);
    push_le32(&mut out, RZIP_DEFAULT_CHUNK_SIZE as u32);
    push_le64(&mut out, plain.len() as u64);
    let ghost header = out@;
    let mut pos: usize = 0;
    assert(plain@.skip(0) =~= plain@);
    while pos < plain.len()
        invariant
            pos <= plain@.len(),
            header == rzip_magic() + le32_bytes(131072u32) + le64_bytes(plain@.len() as u64),
            out@ + rzip_body(plain@.skip(pos as int), 131072) == header + rzip_body(
                plain@,
                131072,
            ),
            rzip_chunks_roundtrip(plain@.skip(pos as int)) ==> rzip_chunks_roundtrip(plain@),
            rzip_chunks_fit(plain@.skip(pos as int)) ==> rzip_chunks_fit(plain@),
        decreases plain.len() - pos,
    {
        let rest = plain.len() - pos;
        let k = if rest < RZIP_DEFAULT_CHUNK_SIZE {
            rest
        } else {
            RZIP_DEFAULT_CHUNK_SIZE
        };
        let chunk = &plain[pos..pos + k];
        let compressed = compress(chunk);
        let ghost tail = plain@.skip(pos as int);
        assert(chunk@ =~= tail.take(k as int));
        assert(tail.skip(k as int) =~= plain@.skip((pos + k) as int));
        assert(rzip_chunks_roundtrip(plain@.skip((pos + k) as int)) ==> rzip_chunks_roundtrip(
            tail,
        ));
        assert(rzip_chunks_fit(plain@.skip((pos + k) as int)) ==> rzip_chunks_fit(tail));
        let ghost before = out@;
        push_le32(&mut out, compressed.len() as u32);
        push_bytes(&mut out, compressed.as_slice());
        assert(out@ =~= before + rzip_chunk(chunk@));
        pos += k;
    }
    assert(plain@.skip(plain@.len() as int) =~= Seq::<u8>::empty());
    assert(out@ =~= rzip_wrapped(plain@));
    proof {
        if 0 < plain@.len() <= MAX_RZIP_CONTENT {
            lemma_rzip_roundtrip(plain@);
        }
    }
    out
}

/// The chunk records of `rest`, found at `pos`, decode back to `rest`.
proof fn lemma_rzip_chunks(b: Seq<u8>, pos: int, done: int, total: int, rest: Seq<u8>)
    requires
        0 <= pos <= b.len(),
        0 <= done,
        total - done == rest.len(),
        b.subrange(pos, b.len() as int) == rzip_body(rest, 131072),
        rzip_chunks_fit(rest),
        rzip_chunks_roundtrip(rest),
    ensures
        rzip_chunks_from(b, pos, done, total, 131072) == Ok::<Seq<u8>, StateError>(rest),
    decreases rest.len(),
{
    if rest.len() == 0 {
        assert(rest =~= Seq::<u8>::empty());
    } else {
        let k = if 131072 < rest.len() {
            131072int
        } else {
            rest.len() as int
        };
        let c = rest.take(k);
        let comp = zlib_compress(c);
        let body = rzip_body(rest, 131072);
        assert(body == rzip_chunk(c) + rzip_body(rest.skip(k), 131072));
        let tail = b.subrange(pos, b.len() as int);
        assert(tail.len() >= 4 + comp.len());
        lemma_le32_roundtrip(comp.len() as u32);
        assert(le32_at(b, pos) == comp.len() as u32) by {
            assert(b[pos] == tail[0]);
            assert(b[pos + 1] == tail[1]);
            assert(b[pos + 2] == tail[2]);
            assert(b[pos + 3] == tail[3]);
        }
        let start = pos + 4;
        let clen = comp.len() as int;
        assert(b.subrange(start, start + clen) =~= comp) by {
            assert forall|i: int| 0 <= i < clen implies b.subrange(start, start + clen)[i]
                == comp[i] by {
                assert(b[start + i] == tail[4 + i]);
            }
        }
        let rest_body = rzip_body(rest.skip(k), 131072);
        assert(tail.len() == 4 + clen + rest_body.len());
        assert(b.subrange(start + clen, b.len() as int) =~= rest_body) by {
            assert forall|i: int| 0 <= i < rest_body.len() implies b.subrange(
                start + clen,
                b.len() as int,
            )[i] == rest_body[i] by {
                assert(b[start + clen + i] == tail[4 + clen + i]);
                assert(tail[4 + clen + i] == (rzip_chunk(c) + rest_body)[4 + clen + i]);
            }
        }
        lemma_rzip_chunks(b, start + clen, done + k, total, rest.skip(k));
        assert(c + rest.skip(k) =~= rest);
        assert(zlib_decompress(comp) == Some(c));
        assert(0 < clen <= 262144);
        assert(le32_at(b, pos) as int == clen);
        assert(c.len() == k);
        let expected = if total - done < 131072 {
            total - done
        } else {
            131072
        };
        assert(expected == k);
        assert(rzip_chunks_from(b, start + clen, done + k, total, 131072) == Ok::<
            Seq<u8>,
            StateError,
        >(rest.skip(k)));
        assert(done < total);
        assert(pos + 4 <= b.len());
        assert(start + clen <= b.len());
        assert(zlib_decompress(b.subrange(start, start + clen)) == Some(c));
        assert(rzip_chunks_from(b, pos, done, total, 131072) == (match rzip_chunks_from(
            b,
            start + clen,
            done + k,
            total,
            131072,
        ) {
            Ok(rest2) => Ok(c + rest2),
            Err(e) => Err(e),
        }));
        assert(rzip_chunks_from(b, pos, done, total, 131072) == Ok::<Seq<u8>, StateError>(
            c + rest.skip(k),
        ));
    }
}

/// An RZIP file written by `rzip_wrap` decodes back to the data it wrapped.
proof fn lemma_rzip_roundtrip(plain: Seq<u8>)
    requires
        0 < plain.len() <= MAX_RZIP_CONTENT,
        rzip_chunks_fit(plain),
        rzip_chunks_roundtrip(plain),
    ensures
        rzip_unwrapped(rzip_wrapped(plain)) == Ok::<Seq<u8>, StateError>(plain),
{
    let b = rzip_wrapped(plain);
    lemma_le32_roundtrip(131072u32);
    lemma_le64_roundtrip(plain.len() as u64);
    let h = le64_bytes(plain.len() as u64);
    assert(le32_at(b, 8) == 131072u32) by {
        assert(b[8] == le32_bytes(131072u32)[0]);
        assert(b[9] == le32_bytes(131072u32)[1]);
        assert(b[10] == le32_bytes(131072u32)[2]);
        assert(b[11] == le32_bytes(131072u32)[3]);
    }
    assert(le64_at(b, 12) == le64_at(h, 0)) by {
        assert forall|i: int| 0 <= i < 8 implies b[12 + i] == h[i] by {}
    }
    assert(b.subrange(20, b.len() as int) =~= rzip_body(plain, 131072));
    lemma_rzip_chunks(b, 20, 0, plain.len() as int, plain);
}

/// The bytes that the chunk records from `pos` on decode to, given `done`
/// of `total` bytes already decoded.
pub open spec fn rzip_chunks_from(b: Seq<u8>, pos: int, done: int, total: int, size: int) -> Result<
    Seq<u8>,
    StateError,
>
    decreases total - done,
{
    if done >= total || size <= 0 || pos < 0 {
        Ok(Seq::empty())
    } else if pos + 4 > b.len() {
        Err(StateError::Truncated)
    } else {
        let clen = le32_at(b, pos) as int;
        let start = pos + 4;
        if clen == 0 || clen > size * 2 || start + clen > b.len() {
            Err(StateError::Truncated)
        } else {
            let expected = if total - done < size {
                total - done
            } else {
                size
            };
            match zlib_decompress(b.subrange(start, start + clen)) {
                Some(d) => if d.len() == expected {
                    match rzip_chunks_from(b, start + clen, done + expected, total, size) {
                        Ok(rest) => Ok(d + rest),
                        Err(e) => Err(e),
                    }
                } else {
                    Err(StateError::Truncated)
                },
                None => Err(StateError::Truncated),
            }
        }
    }
}

/// What an RZIP file decodes to, or why it is rejected.
pub open spec fn rzip_unwrapped(b: Seq<u8>) -> Result<Seq<u8>, StateError> {
    if b.len() < 20 {
        Err(StateError::Truncated)
    } else {
        let size = le32_at(b, 8) as int;
        let total = le64_at(b, 12) as int;
        if size == 0 || size > RZIP_MAX_CHUNK_SIZE {
            Err(StateError::Truncated)
        } else if total == 0 {
            Err(StateError::Truncated)
        } else if total > MAX_RZIP_CONTENT {
            Err(
                StateError::TooLarge {
                    size: if total <= usize::MAX {
                        total as usize
                    } else {
                        usize::MAX
                    },
                    max: MAX_RZIP_CONTENT,
                },
            )
        } else {
            rzip_chunks_from(b, 20, 0, total, size)
        }
    }
}

/// Decodes one chunk of at most `expected` bytes: it must be exactly one
/// complete zlib stream.
fn inflate_chunk(chunk: &[u8], expected: usize) -> (r: Result<Vec<u8>, StateError>)
    ensures
        match r {
            Ok(d) => zlib_decompress(chunk@) == Some(d@) && d@.len() == expected,
            Err(e) => e == StateError::Truncated && !(zlib_decompress(chunk@) matches Some(d)
                && d.len() == expected),
        },
{
    match inflate_once(chunk, expected) {
        Some(step) => {
            if step.stream_end && step.consumed == chunk.len() as u64 && step.output.len()
                == expected {
                Ok(step.output)
            } else {
                Err(StateError::Truncated)
            }
        },
        None => Err(StateError::Truncated),
    }
}

/// Decodes an RZIP file back to the data it holds.
pub fn rzip_unwrap(bytes: &[u8]) -> (r: Result<Vec<u8>, StateError>)
    ensures
        match (r, rzip_unwrapped(bytes@)) {
            (Ok(v), Ok(w)) => v@ == w,
            (Err(e), Err(f)) => e == f,
            _ => false,
        },
{
    let n = bytes.len();
    if n < 20 {
        return Err(StateError::Truncated);
    }
    let chunk_size = read_le32(bytes, 8) as usize;
    let total = read_le64(bytes, 12);
    if chunk_size == 0 || chunk_size > RZIP_MAX_CHUNK_SIZE {
        return Err(StateError::Truncated);
    }
    if total == 0 {
        return Err(StateError::Truncated);
    }
    if total > MAX_RZIP_CONTENT as u64 {
        let size = if total <= usize::MAX as u64 {
            total as usize
        } else {
            usize::MAX
        };
        return Err(StateError::TooLarge { size, max: MAX_RZIP_CONTENT });
    }
    let total = total as usize;
    let mut out: Vec<u8> = Vec::new();
    let mut pos: usize = 20;
    let ghost goal = rzip_chunks_from(bytes@, 20, 0, total as int, chunk_size as int);
    while out.len() < total
        invariant
            n == bytes@.len(),
            20 <= pos <= n,
            0 < chunk_size <= RZIP_MAX_CHUNK_SIZE,
            out@.len() <= total <= MAX_RZIP_CONTENT,
            goal == rzip_chunks_from(bytes@, 20, 0, total as int, chunk_size as int),
            rzip_unwrapped(bytes@) == goal,
            match goal {
                Ok(g) => match rzip_chunks_from(
                    bytes@,
                    pos as int,
                    out@.len() as int,
                    total as int,
                    chunk_size as int,
                ) {
                    Ok(rest) => g == out@ + rest,
                    Err(_) => false,
                },
                Err(e) => rzip_chunks_from(
                    bytes@,
                    pos as int,
                    out@.len() as int,
                    total as int,
                    chunk_size as int,
                ) == Err::<Seq<u8>, StateError>(e),
            },
        ensures
            out@.len() == total,
            match goal {
                Ok(g) => g == out@,
                Err(_) => false,
            },
        decreases total - out.len(),
    {
        if n - pos < 4 {
            return Err(StateError::Truncated);
        }
        let compressed_len = read_le32(bytes, pos) as usize;
        pos += 4;
        if compressed_len == 0 || compressed_len > chunk_size * 2 {
            return Err(StateError::Truncated);
        }
        if compressed_len > n - pos {
            return Err(StateError::Truncated);
        }
        let expected = if total - out.len() < chunk_size {
            total - out.len()
        } else {
            chunk_size
        };
        let decoded = inflate_chunk(&bytes[pos..pos + compressed_len], expected);
        let decoded = match decoded {
            Ok(d) => d,
            Err(e) => {
                return Err(e);
            },
        };
        let ghost old_out = out@;
        pos += compressed_len;
        push_bytes(&mut out, decoded.as_slice());
        proof {
            let rest_now = rzip_chunks_from(
                bytes@,
                pos as int,
                out@.len() as int,
                total as int,
                chunk_size as int,
            );
            match rest_now {
                Ok(r2) => {
                    assert(out@ + r2 =~= old_out + (decoded@ + r2));
                },
                Err(_) => {},
            }
        }
    }
    proof {
        assert(rzip_chunks_from(bytes@, pos as int, total as int, total as int, chunk_size as int)
            == Ok::<Seq<u8>, StateError>(Seq::empty()));
        assert(out@ + Seq::<u8>::empty() =~= out@);
    }
    Ok(out)
}


// ── Decoding a state file ──────────────────────────────────────────────────

/// The core state a state file holds: RZIP files are unwrapped first, and
/// the container inside must be RASTATE either way.
pub open spec fn decoded_state_file(b: Seq<u8>) -> Result<Seq<u8>, StateError> {
    if b.len() >= 8 && b.subrange(0, 8) == rzip_magic() {
        match rzip_unwrapped(b) {
            Ok(plain) => parsed_state(plain),
            Err(e) => Err(e),
        }
    } else {
        parsed_state(b)
    }
}

/// The core state held by the bytes of a state file, ready to hand to the
/// core.
pub fn state_payload(bytes: &[u8]) -> (r: Result<Vec<u8>, StateError>)
    ensures
        match (r, decoded_state_file(bytes@)) {
            (Ok(v), Ok(w)) => v@ == w,
            (Err(e), Err(f)) => e == f,
            _ => false,
        },
{
    if is_rzip(bytes) {
        let plain = rzip_unwrap(bytes)?;
        match parse_state(plain.as_slice()) {
            Ok(p) => Ok(vstd::slice::slice_to_vec(p)),
            Err(e) => Err(e),
        }
    } else {
        match parse_state(bytes) {
            Ok(p) => Ok(vstd::slice::slice_to_vec(p)),
            Err(e) => Err(e),
        }
    }
}

/// The bytes of a new state file for a core state: the RASTATE container,
/// RZIP-compressed. Reading such a file gives the same state back whenever
/// the container fits the RZIP limits.
pub fn state_file_bytes(payload: &[u8]) -> (r: Result<Vec<u8>, StateError>)
    ensures
        payload@.len() <= u32::MAX ==> (r matches Ok(v) && v@ == rzip_wrapped(encoded(payload@))),
        payload@.len() > u32::MAX ==> (r matches Err(StateError::TooLarge { size, max }) && size
            == payload@.len() && max == u32::MAX),
        (payload@.len() <= u32::MAX && encoded(payload@).len() <= MAX_RZIP_CONTENT) ==> (r matches Ok(
            v,
        ) && decoded_state_file(v@) == Ok::<Seq<u8>, StateError>(payload@)),
{
    let container = encode(payload)?;
    let wrapped = rzip_wrap(container.as_slice());
    proof {
        if payload@.len() <= u32::MAX && encoded(payload@).len() <= MAX_RZIP_CONTENT {
            lemma_parse_encoded(payload@);
            assert(wrapped@.subrange(0, 8) =~= rzip_magic());
        }
    }
    Ok(wrapped)
}

impl StateError {
    /// The text shown for this error.
    pub open spec fn text(&self) -> Seq<char> {
        match self {
            StateError::Io(m) => "I/O error: "@ + m@,
            StateError::ReadDir { path, message } => "failed to read directory "@ + path@ + ": "@
                + message@,
            StateError::NotAState => "not a valid state file"@,
            StateError::UnsupportedVersion(v) => "unsupported state format version "@ + decimal(
                *v as nat,
            ),
            StateError::Truncated => "truncated state file"@,
            StateError::TooLarge { size, max } => "state is "@ + decimal(*size as nat)
                + " bytes, maximum is "@ + decimal(*max as nat) + " bytes"@,
            StateError::SerializationFailed => "core failed to serialize its state"@,
            StateError::UnserializationFailed => "core failed to restore the state"@,
        }
    }

    /// The text shown for this error.
    pub fn message(&self) -> (r: String)
        ensures
            r@ == self.text(),
    {
        let mut out: Vec<char> = Vec::new();
        match self {
            StateError::Io(m) => {
                push_str(&mut out, "I/O error: ");
                push_str(&mut out, m.as_str());
            },
            StateError::ReadDir { path, message } => {
                push_str(&mut out, "failed to read directory ");
                push_str(&mut out, path.as_str());
                push_str(&mut out, ": ");
                push_str(&mut out, message.as_str());
            },
            StateError::NotAState => push_str(&mut out, "not a valid state file"),
            StateError::UnsupportedVersion(v) => {
                push_str(&mut out, "unsupported state format version ");
                push_decimal(&mut out, *v as u64);
            },
            StateError::Truncated => push_str(&mut out, "truncated state file"),
            StateError::TooLarge { size, max } => {
                push_str(&mut out, "state is ");
                push_decimal(&mut out, *size as u64);
                push_str(&mut out, " bytes, maximum is ");
                push_decimal(&mut out, *max as u64);
                push_str(&mut out, " bytes");
            },
            StateError::SerializationFailed => push_str(
                &mut out,
                "core failed to serialize its state",
            ),
            StateError::UnserializationFailed => push_str(
                &mut out,
                "core failed to restore the state",
            ),
        }
        assert(out@ =~= self.text());
        string_from_chars(&out)
    }
}

// ── Core and file names ────────────────────────────────────────────────────

/// A core library's file name without its platform extension and its
/// `_libretro` suffix.
pub open spec fn core_name_of_file(name: Seq<char>) -> Seq<char> {
    let base = if name.len() >= 6 && name.subrange(name.len() - 6, name.len() as int)
        == ".dylib"@ {
        name.subrange(0, name.len() - 6)
    } else if name.len() >= 3 && name.subrange(name.len() - 3, name.len() as int) == ".so"@ {
        name.subrange(0, name.len() - 3)
    } else if name.len() >= 4 && name.subrange(name.len() - 4, name.len() as int) == ".dll"@ {
        name.subrange(0, name.len() - 4)
    } else {
        name
    };
    if base.len() >= 9 && base.subrange(base.len() - 9, base.len() as int) == "_libretro"@ {
        base.subrange(0, base.len() - 9)
    } else {
        base
    }
}

/// Removes `suffix` from the end of `s` when it is there.
fn strip_suffix_chars(s: &Vec<char>, suffix: &str) -> (r: Option<Vec<char>>)
    ensures
        match r {
            Some(t) => suffix@.len() <= s@.len() && s@.subrange(
                s@.len() - suffix@.len(),
                s@.len() as int,
            ) == suffix@ && t@ == s@.subrange(0, s@.len() - suffix@.len()),
            None => !(suffix@.len() <= s@.len() && s@.subrange(
                s@.len() - suffix@.len(),
                s@.len() as int,
            ) == suffix@),
        },
{
    let suf = str_chars(suffix);
    if crate::text::chars_end_with(s, &suf) {
        Some(crate::text::chars_range(s, 0, s.len() - suf.len()))
    } else {
        None
    }
}

/// The core name for a core library file name, like `fceumm` for
/// `fceumm_libretro.so`.
pub fn core_name_from_file_name(name: &str) -> (r: String)
    ensures
        r@ == core_name_of_file(name@),
{
    let chars = str_chars(name);
    proof {
        reveal_strlit(".dylib");
        reveal_strlit(".so");
        reveal_strlit(".dll");
        reveal_strlit("_libretro");
    }
    let base = match strip_suffix_chars(&chars, ".dylib") {
        Some(b) => b,
        None => match strip_suffix_chars(&chars, ".so") {
            Some(b) => b,
            None => match strip_suffix_chars(&chars, ".dll") {
                Some(b) => b,
                None => chars.clone(),
            },
        },
    };
    let core = match strip_suffix_chars(&base, "_libretro") {
        Some(b) => b,
        None => base,
    };
    string_from_chars(&core)
}

/// The core name for a core library path; `core` when the path has no file
/// name.
pub fn core_name_from_path(path: &str) -> (r: String)
    ensures
        r@ == match file_name(path@) {
            Some(n) => core_name_of_file(n),
            None => "core"@,
        },
{
    match file_name_str(path) {
        Some(n) => core_name_from_file_name(n.as_str()),
        None => {
            let mut out: Vec<char> = Vec::new();
            push_str(&mut out, "core");
            string_from_chars(&out)
        },
    }
}


// ── Timestamps ─────────────────────────────────────────────────────────────

/// The chrono format of timestamps in state file names.
pub const TIMESTAMP_FORMAT: &'static str = "%Y%m%dT%H%M%S%.3f%z";

/// The instant, in milliseconds since the Unix epoch, that chrono's
/// `DateTime::parse_from_str` reads from `text` with the chrono format
/// `format`; `None` when chrono rejects the text.
pub uninterp spec fn chrono_millis(text: Seq<char>, format: Seq<char>) -> Option<i64>;

/// The instant a timestamp text denotes, read with `TIMESTAMP_FORMAT`.
pub open spec fn timestamp_millis(text: Seq<char>) -> Option<i64> {
    chrono_millis(text, TIMESTAMP_FORMAT@)
}

/// Parses `text` with `chrono::DateTime::parse_from_str` and `format`, and
/// gives the instant's `timestamp_millis`.
#[verifier::external_body]
fn parse_instant(text: &str, format: &str) -> (r: Option<i64>)
    ensures
        r == chrono_millis(text@, format@),
{
    match chrono::DateTime::parse_from_str(text, format) {
        Ok(instant) => Some(instant.timestamp_millis()),
        Err(_) => None,
    }
}

/// The current local time formatted by chrono with `format`. Nothing is
/// claimed of the text: it depends on the clock and time zone. chrono's
/// rendering fails, and `to_string` panics, on a format item it cannot
/// render, so only the file-name format, which it renders, is admitted.
#[verifier::external_body]
fn local_now_text(format: &str) -> String
    requires
        format@ == TIMESTAMP_FORMAT@,
{
    chrono::Local::now().fixed_offset().format(format).to_string()
}

/// Whether `t` has the shape `YYYYMMDDTHHMMSS.sss+HHMM` (or `-HHMM`).
pub open spec fn timestamp_shape(t: Seq<char>) -> bool {
    &&& t.len() == 24
    &&& forall|i: int|
        (0 <= i < 8 || 9 <= i < 15 || 16 <= i < 19 || 20 <= i < 24) ==> #[trigger] is_digit(t[i])
    &&& t[8] == 'T'
    &&& t[15] == '.'
    &&& (t[19] == '+' || t[19] == '-')
}

/// A save-state timestamp: the basic ISO 8601 text used in file names and
/// the absolute instant it denotes.
#[derive(Debug)]
pub struct Timestamp {
    text: String,
    millis: i64,
}

impl View for Timestamp {
    type V = (Seq<char>, i64);

    closed spec fn view(&self) -> (Seq<char>, i64) {
        (self.text@, self.millis)
    }
}

/// Whether `v` is a timestamp that `Timestamp::parse` accepts, with its
/// instant.
pub open spec fn valid_timestamp(v: (Seq<char>, i64)) -> bool {
    timestamp_shape(v.0) && timestamp_millis(v.0) == Some(v.1)
}

/// The human-readable form `YYYY-MM-DD HH:MM:SS +HH:MM` of a timestamp text.
pub open spec fn human_form(t: Seq<char>) -> Seq<char> {
    t.subrange(0, 4) + seq!['-'] + t.subrange(4, 6) + seq!['-'] + t.subrange(6, 8) + seq![' ']
        + t.subrange(9, 11) + seq![':'] + t.subrange(11, 13) + seq![':'] + t.subrange(13, 15)
        + seq![' ', t[19]] + t.subrange(20, 22) + seq![':'] + t.subrange(22, 24)
}

fn chars_have_timestamp_shape(t: &Vec<char>) -> (r: bool)
    ensures
        r == timestamp_shape(t@),
{
    if t.len() != 24 {
        return false;
    }
    let mut i: usize = 0;
    while i < 24
        invariant
            t.len() == 24,
            i <= 24,
            forall|j: int|
                0 <= j < i && (0 <= j < 8 || 9 <= j < 15 || 16 <= j < 19 || 20 <= j < 24)
                    ==> #[trigger] is_digit(t@[j]),
        decreases 24 - i,
    {
        if i != 8 && i != 15 && i != 19 {
            if !('0' <= t[i] && t[i] <= '9') {
                assert(!is_digit(t@[i as int]));
                return false;
            }
        }
        i += 1;
    }
    t[8] == 'T' && t[15] == '.' && (t[19] == '+' || t[19] == '-')
}

impl Timestamp {
    /// Every timestamp is one that `parse` accepts.
    #[verifier::type_invariant]
    closed spec fn accepted(self) -> bool {
        valid_timestamp(self@)
    }

    /// Whether this timestamp was built by `parse`.
    pub closed spec fn wf(&self) -> bool {
        valid_timestamp(self@)
    }

    /// Reads a timestamp in the file-name form `YYYYMMDDTHHMMSS.sss+HHMM`.
    pub fn parse(text: &str) -> (r: Option<Self>)
        ensures
            match r {
                Some(t) => t@.0 == text@ && valid_timestamp(t@) && t.wf(),
                None => !(timestamp_shape(text@) && timestamp_millis(text@) is Some),
            },
    {
        let chars = str_chars(text);
        if !chars_have_timestamp_shape(&chars) {
            return None;
        }
        match parse_instant(text, TIMESTAMP_FORMAT) {
            Some(millis) => Some(Timestamp { text: string_from_chars(&chars), millis }),
            None => None,
        }
    }

    /// The current local time; `None` only if chrono's rendering of it is not
    /// a timestamp this type accepts.
    pub fn now() -> (r: Option<Self>)
        ensures
            r matches Some(t) ==> t.wf(),
    {
        let text = local_now_text(TIMESTAMP_FORMAT);
        Self::parse(text.as_str())
    }

    /// The form used in state file names.
    pub fn filename(&self) -> (r: String)
        ensures
            r@ == self@.0,
    {
        self.text.clone()
    }

    /// The form shown to people, `YYYY-MM-DD HH:MM:SS +HH:MM`.
    pub fn human(&self) -> (r: String)
        ensures
            r@ == human_form(self@.0),
    {
        proof {
            use_type_invariant(self);
        }
        let t = str_chars(self.text.as_str());
        let mut out: Vec<char> = Vec::new();
        push_chars(&mut out, &crate::text::chars_range(&t, 0, 4));
        out.push('-');
        push_chars(&mut out, &crate::text::chars_range(&t, 4, 6));
        out.push('-');
        push_chars(&mut out, &crate::text::chars_range(&t, 6, 8));
        out.push(' ');
        push_chars(&mut out, &crate::text::chars_range(&t, 9, 11));
        out.push(':');
        push_chars(&mut out, &crate::text::chars_range(&t, 11, 13));
        out.push(':');
        push_chars(&mut out, &crate::text::chars_range(&t, 13, 15));
        out.push(' ');
        out.push(t[19]);
        push_chars(&mut out, &crate::text::chars_range(&t, 20, 22));
        out.push(':');
        push_chars(&mut out, &crate::text::chars_range(&t, 22, 24));
        assert(out@ =~= human_form(self@.0));
        string_from_chars(&out)
    }

    /// Milliseconds since the Unix epoch.
    pub fn unix_millis(&self) -> (r: i64)
        ensures
            r == self@.1,
    {
        self.millis
    }
}

/// The text before the timestamp suffix `.YYYYMMDDTHHMMSS.sss+HHMM` of `t`,
/// with the timestamp, when `t` ends with one.
pub open spec fn timestamp_suffix(t: Seq<char>) -> Option<(Seq<char>, Seq<char>)> {
    if t.len() < 25 || t[t.len() - 25] != '.' {
        None
    } else {
        let ts = t.subrange(t.len() - 24, t.len() as int);
        if timestamp_shape(ts) && timestamp_millis(ts) is Some {
            Some((t.subrange(0, t.len() - 25), ts))
        } else {
            None
        }
    }
}

/// Splits a trailing `.timestamp` off `text`.
pub fn parse_timestamp_suffix(text: &Vec<char>) -> (r: Option<(Vec<char>, Timestamp)>)
    ensures
        match r {
            Some((g, t)) => timestamp_suffix(text@) == Some((g@, t@.0)) && valid_timestamp(t@)
                && t.wf(),
            None => timestamp_suffix(text@) is None,
        },
{
    if text.len() < 25 || text[text.len() - 25] != '.' {
        return None;
    }
    let ts = crate::text::chars_range(text, text.len() - 24, text.len());
    let ts_text = string_from_chars(&ts);
    match Timestamp::parse(ts_text.as_str()) {
        Some(t) => Some((crate::text::chars_range(text, 0, text.len() - 25), t)),
        None => None,
    }
}

/// `text` split at its last `-` into the base and a decimal counter that
/// fits a `u32`.
pub open spec fn counter_suffix(text: Seq<char>) -> Option<(Seq<char>, u32)> {
    match crate::pathname::last_index_of(text, '-') {
        None => None,
        Some(i) => {
            let d = text.subrange(i + 1, text.len() as int);
            if d.len() == 0 || !all_digits(d) || digits_value(d) > u32::MAX {
                None
            } else {
                Some((text.subrange(0, i), digits_value(d) as u32))
            }
        },
    }
}


/// Splits a `-N` counter off the end of `text`.
pub fn split_counter(text: &Vec<char>) -> (r: Option<(Vec<char>, u32)>)
    ensures
        match r {
            Some((b, n)) => counter_suffix(text@) == Some((b@, n)),
            None => counter_suffix(text@) is None,
        },
{
    match crate::pathname::find_last(text, '-') {
        None => None,
        Some(i) => {
            proof {
                crate::pathname::lemma_last_index_of(text@, '-');
            }
            assert(i < text.len());
            let d = crate::text::chars_range(text, i + 1, text.len());
            if d.len() == 0 {
                return None;
            }
            let mut k: usize = 0;
            while k < d.len()
                invariant
                    k <= d.len(),
                    i < text.len(),
                    d@ == text@.subrange(i + 1, text@.len() as int),
                    crate::pathname::last_index_of(text@, '-') == Some(i as int),
                    forall|j: int| 0 <= j < k ==> #[trigger] is_digit(d@[j]),
                decreases d.len() - k,
            {
                if !('0' <= d[k] && d[k] <= '9') {
                    assert(!is_digit(d@[k as int]));
                    return None;
                }
                k += 1;
            }
            match parse_u32_digits(&d) {
                Some(n) => Some((crate::text::chars_range(text, 0, i), n)),
                None => None,
            }
        },
    }
}

/// The game, timestamp text and counter a managed state file name encodes:
/// `<game>.<timestamp>.state` or `<game>.<timestamp>-<n>.state`.
pub open spec fn state_file_name_parts(name: Seq<char>) -> Option<(Seq<char>, Seq<char>, u32)> {
    if name.len() < 6 || name.subrange(name.len() - 6, name.len() as int) != ".state"@ {
        None
    } else {
        let stem = name.subrange(0, name.len() - 6);
        match timestamp_suffix(stem) {
            Some((g, t)) => Some((g, t, 1u32)),
            None => match counter_suffix(stem) {
                None => None,
                Some((base, n)) => match timestamp_suffix(base) {
                    Some((g, t)) => Some((g, t, n)),
                    None => None,
                },
            },
        }
    }
}

/// Reads a managed state file name into its game, timestamp and counter.
pub fn parse_state_file_name(name: &str) -> (r: Option<(String, Timestamp, u32)>)
    ensures
        match r {
            Some((g, t, n)) => state_file_name_parts(name@) == Some((g@, t@.0, n)) && t.wf(),
            None => state_file_name_parts(name@) is None,
        },
{
    let chars = str_chars(name);
    proof {
        reveal_strlit(".state");
    }
    let stem = match strip_suffix_chars(&chars, ".state") {
        Some(s) => s,
        None => return None,
    };
    if let Some((game, ts)) = parse_timestamp_suffix(&stem) {
        return Some((string_from_chars(&game), ts, 1));
    }
    let (base, counter) = match split_counter(&stem) {
        Some(x) => x,
        None => return None,
    };
    match parse_timestamp_suffix(&base) {
        Some((game, ts)) => Some((string_from_chars(&game), ts, counter)),
        None => None,
    }
}

/// The file name a state gets: `<game>.<timestamp>.state` for the first
/// file and `<game>.<timestamp>-<n>.state` when `n` files already collided.
pub open spec fn state_file_name_of(game: Seq<char>, timestamp: Seq<char>, counter: u32) -> Seq<
    char,
> {
    if counter == 1 {
        game + seq!['.'] + timestamp + ".state"@
    } else {
        game + seq!['.'] + timestamp + seq!['-'] + decimal(counter as nat) + ".state"@
    }
}

/// Builds the file name of a state saved at `timestamp`, with a counter
/// after the first collision.
pub fn state_file_name(game: &str, timestamp: &Timestamp, counter: u32) -> (r: String)
    ensures
        r@ == state_file_name_of(game@, timestamp@.0, counter),
{
    let mut out: Vec<char> = Vec::new();
    push_str(&mut out, game);
    out.push('.');
    push_str(&mut out, timestamp.text.as_str());
    if counter != 1 {
        out.push('-');
        push_decimal(&mut out, counter as u64);
    }
    push_str(&mut out, ".state");
    assert(out@ =~= state_file_name_of(game@, timestamp@.0, counter));
    string_from_chars(&out)
}


/// Decimal text reads back as the number it renders.
proof fn lemma_decimal_digits(n: nat)
    ensures
        all_digits(decimal(n)),
        digits_value(decimal(n)) == n,
        1 <= decimal(n).len(),
        n < 10 ==> decimal(n).len() <= 1,
        n < 100 ==> decimal(n).len() <= 2,
        n < 1000 ==> decimal(n).len() <= 3,
        n < 10000 ==> decimal(n).len() <= 4,
        n < 100000 ==> decimal(n).len() <= 5,
        n < 1000000 ==> decimal(n).len() <= 6,
        n < 10000000 ==> decimal(n).len() <= 7,
    decreases n,
{
    if n >= 10 {
        lemma_decimal_digits(n / 10);
        let d = decimal(n);
        assert(d.drop_last() =~= decimal(n / 10));
        assert((n / 10) * 10 + n % 10 == n) by (nonlinear_arith);
        assert((d.last() as int) == (n % 10) + 48);
        assert(digits_value(d) == digits_value(d.drop_last()) * 10 + ((d.last() as int)
            - 48) as nat);
        assert(digits_value(d.drop_last()) == n / 10);
        assert forall|i: int| 0 <= i < d.len() implies #[trigger] is_digit(d[i]) by {
            if i < d.len() - 1 {
                assert(d[i] == decimal(n / 10)[i]);
            }
        }
    } else {
        let d = decimal(n);
        assert(d.drop_last() =~= Seq::<char>::empty());
        assert((d.last() as int) == n + 48);
        assert(digits_value(d) == digits_value(d.drop_last()) * 10 + ((d.last() as int)
            - 48) as nat);
        assert(digits_value(Seq::<char>::empty()) == 0);
    }
}

/// Reading a name built by `state_file_name` gives back its game, timestamp
/// and counter, for any counter below ten million.
pub proof fn lemma_state_file_name_roundtrip(game: Seq<char>, t: (Seq<char>, i64), counter: u32)
    requires
        valid_timestamp(t),
        1 <= counter < 10000000,
    ensures
        state_file_name_parts(state_file_name_of(game, t.0, counter)) == Some((game, t.0, counter)),
{
    reveal_strlit(".state");
    let ts = t.0;
    let name = state_file_name_of(game, ts, counter);
    let stem = name.subrange(0, name.len() - 6);
    assert(name.subrange(name.len() - 6, name.len() as int) =~= ".state"@);
    if counter == 1 {
        assert(stem =~= game + seq!['.'] + ts);
        assert(stem.subrange(stem.len() - 24, stem.len() as int) =~= ts);
        assert(stem.subrange(0, stem.len() - 25) =~= game);
    } else {
        let d = decimal(counter as nat);
        lemma_decimal_digits(counter as nat);
        assert(stem =~= game + seq!['.'] + ts + seq!['-'] + d);
        let g = game.len() as int;
        let l = stem.len() as int;
        assert(l == g + 26 + d.len());
        // The last 24 characters are not a timestamp: position 15 of them
        // falls on a digit or the sign of `ts`.
        assert(stem[l - 9] == ts[16 + d.len() as int]);
        assert(stem[l - 9] != '.') by {
            let k = 16 + d.len() as int;
            if k == 19 {
            } else {
                assert(is_digit(ts[k]));
            }
        }
        let last24 = stem.subrange(l - 24, l);
        assert(last24[15] == stem[l - 9]);
        assert(timestamp_suffix(stem) is None);
        // The counter is split off at the `-` that precedes it.
        let dash = g + 25;
        assert(stem[dash] == '-');
        assert forall|j: int| dash < j < stem.len() implies stem[j] != '-' by {
            assert(stem[j] == d[j - dash - 1]);
            assert(is_digit(d[j - dash - 1]));
        }
        crate::pathname::lemma_last_index_of(stem, '-');
        let li = crate::pathname::last_index_of(stem, '-');
        assert(li == Some(dash)) by {
            match li {
                Some(i) => {
                    if i < dash {
                        assert(stem[dash] != '-');
                    }
                },
                None => {
                    assert(stem[dash] != '-');
                },
            }
        }
        assert(stem.subrange(dash + 1, l) =~= d);
        let base = stem.subrange(0, dash);
        assert(base =~= game + seq!['.'] + ts);
        assert(counter_suffix(stem) == Some((base, counter)));
        assert(base.subrange(base.len() - 24, base.len() as int) =~= ts);
        assert(base.subrange(0, base.len() - 25) =~= game);
    }
}

} // verus!
