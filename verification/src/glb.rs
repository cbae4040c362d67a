//! The binary glTF container: a header and a sequence of chunks.
//!
//! A container starts with a twelve-byte header (magic, version, total
//! length) and a JSON chunk. At most one BIN chunk may follow. Chunks of other
//! types are allowed and ignored; the parser behind the library does not know
//! them, so they are taken out first.

use vstd::prelude::*;

verus! {

/// Why bytes are not a container.
#[derive(Clone, Copy, Debug, PartialEq, Eq, Structural)]
pub enum GlbError {
    TruncatedHeader,
    BadMagic,
    UnsupportedVersion { version: u32 },
    LengthMismatch { declared: u32, actual: usize },
    TruncatedChunkHeader,
    ChunkLengthOverflow,
    ChunkExceedsLength,
    FirstChunkNotJson,
    MultipleBinChunks,
    MultipleJsonChunks,
}

/// The header size.
pub const HEADER: usize = 12;

/// The four bytes at `at` as a little-endian number.
pub open spec fn le32(bytes: Seq<u8>, at: int) -> int {
    bytes[at] + 0x100 * bytes[at + 1] + 0x1_0000 * bytes[at + 2] + 0x100_0000 * bytes[at + 3]
}

/// `value` as four little-endian bytes.
pub open spec fn le32_bytes(value: int) -> Seq<u8> {
    seq![
        (value % 0x100) as u8,
        (value / 0x100 % 0x100) as u8,
        (value / 0x1_0000 % 0x100) as u8,
        (value / 0x100_0000 % 0x100) as u8,
    ]
}

/// Whether the four bytes at `at` are `a`, `b`, `c`, `d`.
pub open spec fn has_tag(bytes: Seq<u8>, at: int, a: u8, b: u8, c: u8, d: u8) -> bool {
    bytes[at] == a && bytes[at + 1] == b && bytes[at + 2] == c && bytes[at + 3] == d
}

/// Whether the chunk at `at` has the type "JSON".
pub open spec fn is_json_chunk(bytes: Seq<u8>, at: int) -> bool {
    has_tag(bytes, at + 4, 0x4a, 0x53, 0x4f, 0x4e)
}

/// Whether the chunk at `at` has the type "BIN\0".
pub open spec fn is_bin_chunk(bytes: Seq<u8>, at: int) -> bool {
    has_tag(bytes, at + 4, 0x42, 0x49, 0x4e, 0)
}

/// Where the chunk at `at` ends.
pub open spec fn chunk_end(bytes: Seq<u8>, at: int) -> int {
    at + 8 + le32(bytes, at)
}

/// What is wrong with the extent of the chunk at `at`.
pub open spec fn chunk_error(bytes: Seq<u8>, at: int) -> Option<GlbError> {
    if bytes.len() - at < 8 {
        Some(GlbError::TruncatedChunkHeader)
    } else if chunk_end(bytes, at) > usize::MAX {
        Some(GlbError::ChunkLengthOverflow)
    } else if chunk_end(bytes, at) > bytes.len() {
        Some(GlbError::ChunkExceedsLength)
    } else {
        None
    }
}

/// What the chunks after the first are: the extent of the BIN chunk, and
/// whether there are chunks of other types.
pub struct Chunks {
    pub bin: Option<(int, int)>,
    pub unknown: bool,
}

/// The chunks from `at` on, after those in `seen`.
pub open spec fn scan(bytes: Seq<u8>, at: int, seen: Chunks) -> Result<Chunks, GlbError>
    decreases bytes.len() - at,
{
    if at >= bytes.len() {
        Ok(seen)
    } else {
        match chunk_error(bytes, at) {
            Some(error) => Err(error),
            None => if is_bin_chunk(bytes, at) {
                if seen.bin is Some {
                    Err(GlbError::MultipleBinChunks)
                } else {
                    scan(
                        bytes,
                        chunk_end(bytes, at),
                        Chunks { bin: Some((at, chunk_end(bytes, at))), unknown: seen.unknown },
                    )
                }
            } else if is_json_chunk(bytes, at) {
                Err(GlbError::MultipleJsonChunks)
            } else {
                scan(bytes, chunk_end(bytes, at), Chunks { bin: seen.bin, unknown: true })
            },
        }
    }
}

/// What is wrong with the header.
pub open spec fn header_error(bytes: Seq<u8>) -> Option<GlbError> {
    if bytes.len() < HEADER {
        Some(GlbError::TruncatedHeader)
    } else if !has_tag(bytes, 0, 0x67, 0x6c, 0x54, 0x46) {
        Some(GlbError::BadMagic)
    } else if le32(bytes, 4) != 2 {
        Some(GlbError::UnsupportedVersion { version: le32(bytes, 4) as u32 })
    } else if le32(bytes, 8) != bytes.len() {
        Some(
            GlbError::LengthMismatch {
                declared: le32(bytes, 8) as u32,
                actual: bytes.len() as usize,
            },
        )
    } else {
        None
    }
}

/// The chunks of a container.
pub open spec fn chunks_of(bytes: Seq<u8>) -> Result<Chunks, GlbError> {
    match header_error(bytes) {
        Some(error) => Err(error),
        None => match chunk_error(bytes, HEADER as int) {
            Some(error) => Err(error),
            None => if is_json_chunk(bytes, HEADER as int) {
                scan(
                    bytes,
                    chunk_end(bytes, HEADER as int),
                    Chunks { bin: None, unknown: false },
                )
            } else {
                Err(GlbError::FirstChunkNotJson)
            },
        },
    }
}

/// Whether the bytes are a container.
pub open spec fn is_container(bytes: Seq<u8>) -> bool {
    chunks_of(bytes) is Ok
}

/// The JSON chunk of a container, with its chunk header.
pub open spec fn json_chunk(bytes: Seq<u8>) -> Seq<u8> {
    bytes.subrange(HEADER as int, chunk_end(bytes, HEADER as int))
}

/// The BIN chunk of a container, with its chunk header, or nothing.
pub open spec fn bin_chunk(bytes: Seq<u8>) -> Seq<u8> {
    match chunks_of(bytes) {
        Ok(chunks) => match chunks.bin {
            Some((start, end)) => bytes.subrange(start, end),
            None => seq![],
        },
        Err(_) => seq![],
    }
}

/// A container with only the JSON and BIN chunks of `bytes`.
pub open spec fn repacked(bytes: Seq<u8>) -> Seq<u8> {
    bytes.subrange(0, 8) + le32_bytes(
        HEADER + json_chunk(bytes).len() + bin_chunk(bytes).len(),
    ) + json_chunk(bytes) + bin_chunk(bytes)
}

/// The container that is parsed: `bytes` itself unless it has unknown chunks.
pub open spec fn normalized(bytes: Seq<u8>) -> Seq<u8> {
    match chunks_of(bytes) {
        Ok(chunks) => if chunks.unknown {
            repacked(bytes)
        } else {
            bytes
        },
        Err(_) => bytes,
    }
}

fn read_le32(bytes: &[u8], at: usize) -> (value: u32)
    requires
        at + 4 <= bytes@.len(),
    ensures
        value == le32(bytes@, at as int),
{
    bytes[at] as u32 + 0x100 * (bytes[at + 1] as u32) + 0x1_0000 * (bytes[at + 2] as u32)
        + 0x100_0000 * (bytes[at + 3] as u32)
}

fn tag_at(bytes: &[u8], at: usize, a: u8, b: u8, c: u8, d: u8) -> (same: bool)
    requires
        at + 4 <= bytes@.len(),
    ensures
        same == has_tag(bytes@, at as int, a, b, c, d),
{
    bytes[at] == a && bytes[at + 1] == b && bytes[at + 2] == c && bytes[at + 3] == d
}

fn read_chunk(bytes: &[u8], at: usize) -> (result: Result<usize, GlbError>)
    requires
        at <= bytes@.len(),
    ensures
        match result {
            Ok(end) => chunk_error(bytes@, at as int) is None && end == chunk_end(
                bytes@,
                at as int,
            ),
            Err(error) => chunk_error(bytes@, at as int) == Some(error),
        },
{
    if bytes.len() - at < 8 {
        return Err(GlbError::TruncatedChunkHeader);
    }
    let length: usize = read_le32(bytes, at) as usize;
    match (at + 8).checked_add(length) {
        None => Err(GlbError::ChunkLengthOverflow),
        Some(end) => if end > bytes.len() {
            Err(GlbError::ChunkExceedsLength)
        } else {
            Ok(end)
        },
    }
}

fn check_header(bytes: &[u8]) -> (result: Result<(), GlbError>)
    ensures
        result == crate::search::outcome(header_error(bytes@)),
{
    if bytes.len() < HEADER {
        return Err(GlbError::TruncatedHeader);
    }
    if !tag_at(bytes, 0, 0x67, 0x6c, 0x54, 0x46) {
        return Err(GlbError::BadMagic);
    }
    let version: u32 = read_le32(bytes, 4);
    if version != 2 {
        return Err(GlbError::UnsupportedVersion { version });
    }
    let declared: u32 = read_le32(bytes, 8);
    if declared as usize != bytes.len() {
        return Err(GlbError::LengthMismatch { declared, actual: bytes.len() });
    }
    Ok(())
}

fn push_range(out: &mut Vec<u8>, bytes: &[u8], from: usize, to: usize)
    requires
        from <= to <= bytes@.len(),
    ensures
        final(out)@ == old(out)@ + bytes@.subrange(from as int, to as int),
{
    let mut at: usize = from;
    while at < to
        invariant
            from <= at <= to <= bytes@.len(),
            out@ =~= old(out)@ + bytes@.subrange(from as int, at as int),
        decreases to - at,
    {
        out.push(bytes[at]);
        at += 1;
    }
}

fn push_le32(out: &mut Vec<u8>, value: u32)
    ensures
        final(out)@ == old(out)@ + le32_bytes(value as int),
{
    out.push((value % 0x100) as u8);
    out.push((value / 0x100 % 0x100) as u8);
    out.push((value / 0x1_0000 % 0x100) as u8);
    out.push((value / 0x100_0000 % 0x100) as u8);
    assert(out@ =~= old(out)@ + le32_bytes(value as int));
}

/// What the scan finds stays within the container, and the BIN chunk it finds
/// is one.
proof fn scan_stays_inside(bytes: Seq<u8>, at: int, seen: Chunks, first: int)
    requires
        first <= at,
        seen.bin matches Some((start, end)) ==> first <= start && start + 8 <= end && end <= at
            && end <= bytes.len() && end == chunk_end(bytes, start) && is_bin_chunk(bytes, start),
    ensures
        scan(bytes, at, seen) matches Ok(chunks) ==> {
            chunks.bin matches Some((start, end)) ==> first <= start && start + 8 <= end && end
                <= bytes.len() && end == chunk_end(bytes, start) && is_bin_chunk(bytes, start)
        },
    decreases bytes.len() - at,
{
    if at < bytes.len() && chunk_error(bytes, at) is None {
        let end = chunk_end(bytes, at);
        if is_bin_chunk(bytes, at) {
            if seen.bin is None {
                scan_stays_inside(
                    bytes,
                    end,
                    Chunks { bin: Some((at, end)), unknown: seen.unknown },
                    first,
                );
            }
        } else if !is_json_chunk(bytes, at) {
            scan_stays_inside(bytes, end, Chunks { bin: seen.bin, unknown: true }, first);
        }
    }
}

/// The container to parse: `None` if `bytes` is one without unknown chunks, else
/// one with its unknown chunks left out. Fails on bytes that are no container.
pub fn normalize_glb_container(bytes: &[u8]) -> (result: Result<Option<Vec<u8>>, GlbError>)
    ensures
        match chunks_of(bytes@) {
            Ok(chunks) => if chunks.unknown {
                result matches Ok(Some(packed)) && packed@ == repacked(bytes@)
            } else {
                result == Ok::<Option<Vec<u8>>, GlbError>(None)
            },
            Err(error) => result == Err::<Option<Vec<u8>>, GlbError>(error),
        },
{
    match check_header(bytes) {
        Ok(()) => {},
        Err(error) => {
            return Err(error);
        },
    }
    let json_end: usize = match read_chunk(bytes, HEADER) {
        Ok(end) => end,
        Err(error) => {
            return Err(error);
        },
    };
    if !tag_at(bytes, HEADER + 4, 0x4a, 0x53, 0x4f, 0x4e) {
        return Err(GlbError::FirstChunkNotJson);
    }
    let mut at: usize = json_end;
    let mut bin: Option<(usize, usize)> = None;
    let mut unknown = false;
    while at < bytes.len()
        invariant
            json_end <= at <= bytes@.len(),
            json_end == chunk_end(bytes@, HEADER as int),
            header_error(bytes@) is None,
            chunk_error(bytes@, HEADER as int) is None,
            is_json_chunk(bytes@, HEADER as int),
            bin matches Some((start, end)) ==> json_end <= start <= end <= at,
            chunks_of(bytes@) == scan(
                bytes@,
                at as int,
                Chunks {
                    bin: match bin {
                        Some((start, end)) => Some((start as int, end as int)),
                        None => None,
                    },
                    unknown,
                },
            ),
        decreases bytes@.len() - at,
    {
        let end: usize = match read_chunk(bytes, at) {
            Ok(end) => end,
            Err(error) => {
                return Err(error);
            },
        };
        if tag_at(bytes, at + 4, 0x42, 0x49, 0x4e, 0) {
            if bin.is_some() {
                return Err(GlbError::MultipleBinChunks);
            }
            bin = Some((at, end));
        } else if tag_at(bytes, at + 4, 0x4a, 0x53, 0x4f, 0x4e) {
            return Err(GlbError::MultipleJsonChunks);
        } else {
            unknown = true;
        }
        at = end;
    }
    if !unknown {
        return Ok(None);
    }
    let bin_length: usize = match bin {
        Some((start, end)) => end - start,
        None => 0,
    };
    assert(bin_length <= bytes@.len() - json_end);
    let total: u32 = (json_end + bin_length) as u32;
    let mut packed: Vec<u8> = Vec::new();
    push_range(&mut packed, bytes, 0, 8);
    push_le32(&mut packed, total);
    push_range(&mut packed, bytes, HEADER, json_end);
    if let Some((start, end)) = bin {
        push_range(&mut packed, bytes, start, end);
    }
    assert(packed@ =~= repacked(bytes@));
    Ok(Some(packed))
}

proof fn le32_round_trip(value: int)
    requires
        0 <= value < 0x1_0000_0000,
    ensures
        le32(le32_bytes(value), 0) == value,
{
    let high = value / 0x100;
    let higher = value / 0x1_0000;
    let highest = value / 0x100_0000;
    assert(value == 0x100 * high + value % 0x100);
    assert(high == 0x100 * higher + high % 0x100);
    assert(higher == 0x100 * highest + higher % 0x100);
    assert(highest % 0x100 == highest);
}

proof fn unknown_stays(bytes: Seq<u8>, at: int, seen: Chunks)
    requires
        seen.unknown,
    ensures
        scan(bytes, at, seen) matches Ok(chunks) ==> chunks.unknown,
    decreases bytes.len() - at,
{
    if at < bytes.len() && chunk_error(bytes, at) is None {
        let end = chunk_end(bytes, at);
        if is_bin_chunk(bytes, at) {
            if seen.bin is None {
                unknown_stays(bytes, end, Chunks { bin: Some((at, end)), unknown: true });
            }
        } else if !is_json_chunk(bytes, at) {
            unknown_stays(bytes, end, Chunks { bin: seen.bin, unknown: true });
        }
    }
}

proof fn known_chunks_fill_the_container(bytes: Seq<u8>)
    requires
        is_container(bytes),
        !chunks_of(bytes)->Ok_0.unknown,
    ensures
        repacked(bytes) == bytes,
{
    let json_end = chunk_end(bytes, HEADER as int);
    let none = Chunks { bin: None, unknown: false };
    if json_end < bytes.len() {
        let end = chunk_end(bytes, json_end);
        unknown_stays(bytes, end, Chunks { bin: None, unknown: true });
        assert(is_bin_chunk(bytes, json_end));
        let found = Chunks { bin: Some((json_end, end)), unknown: false };
        assert(scan(bytes, json_end, none) == scan(bytes, end, found));
        if end < bytes.len() {
            unknown_stays(
                bytes,
                chunk_end(bytes, end),
                Chunks { bin: found.bin, unknown: true },
            );
        }
        assert(scan(bytes, end, found) == Ok::<Chunks, GlbError>(found));
    } else {
        assert(scan(bytes, json_end, none) == Ok::<Chunks, GlbError>(none));
    }
    le32_bytes_restore(bytes, 8);
    assert(repacked(bytes) =~= bytes);
}

proof fn le32_bytes_restore(bytes: Seq<u8>, at: int)
    requires
        0 <= at,
        at + 4 <= bytes.len(),
    ensures
        le32_bytes(le32(bytes, at)) == bytes.subrange(at, at + 4),
{
    let value = le32(bytes, at);
    let (a, b, c, d) = (bytes[at], bytes[at + 1], bytes[at + 2], bytes[at + 3]);
    assert(value / 0x100 == b + 0x100 * c + 0x1_0000 * d);
    assert(value / 0x1_0000 == c + 0x100 * d);
    assert(value / 0x100_0000 == d);
    assert(le32_bytes(value) =~= bytes.subrange(at, at + 4));
}

/// A repacked container starts with the header and the JSON chunk.
proof fn repacked_begins_alike(bytes: Seq<u8>)
    requires
        is_container(bytes),
    ensures
        ({
            let packed = repacked(bytes);
            let json_end = chunk_end(bytes, HEADER as int);
            &&& packed.len() == HEADER + json_chunk(bytes).len() + bin_chunk(bytes).len()
            &&& header_error(packed) is None
            &&& is_json_chunk(packed, HEADER as int)
            &&& chunk_error(packed, HEADER as int) is None
            &&& chunk_end(packed, HEADER as int) == json_end == HEADER + json_chunk(bytes).len()
            &&& json_chunk(packed) == json_chunk(bytes)
            &&& forall|k: int|
                0 <= k < bin_chunk(bytes).len() ==> #[trigger] bin_chunk(bytes)[k]
                    == packed[json_end + k]
        }),
{
    let first = HEADER as int;
    let json_end = chunk_end(bytes, first);
    scan_stays_inside(bytes, json_end, Chunks { bin: None, unknown: false }, json_end);
    let total = first + json_chunk(bytes).len() + bin_chunk(bytes).len();
    let packed = repacked(bytes);
    assert(packed.len() == total);
    le32_round_trip(total);
    assert(packed.subrange(8, 12) =~= le32_bytes(total));
    assert(forall|k: int| 8 <= k < 12 ==> #[trigger] packed[k] == le32_bytes(total)[k - 8]);
    assert(le32(packed, 8) == total);
    assert(forall|k: int| 0 <= k < 8 ==> #[trigger] packed[k] == bytes[k]);
    assert(forall|k: int| first <= k < json_end ==> #[trigger] packed[k] == bytes[k]);
    assert(header_error(packed) is None);
    assert(le32(packed, first) == le32(bytes, first));
    assert(is_json_chunk(packed, first));
    assert(json_chunk(packed) =~= json_chunk(bytes));
}

proof fn repacked_is_known(bytes: Seq<u8>)
    requires
        is_container(bytes),
        chunks_of(bytes)->Ok_0.unknown,
    ensures
        is_container(repacked(bytes)),
        !chunks_of(repacked(bytes))->Ok_0.unknown,
        json_chunk(repacked(bytes)) == json_chunk(bytes),
        bin_chunk(repacked(bytes)) == bin_chunk(bytes),
{
    let json_end = chunk_end(bytes, HEADER as int);
    let start = Chunks { bin: None, unknown: false };
    scan_stays_inside(bytes, json_end, start, json_end);
    repacked_begins_alike(bytes);
    let bin = bin_chunk(bytes);
    let packed = repacked(bytes);
    match chunks_of(bytes)->Ok_0.bin {
        None => {
            assert(scan(packed, json_end, start) == Ok::<Chunks, GlbError>(start));
            assert(bin_chunk(packed) =~= bin);
        },
        Some((from, to)) => {
            assert(bin.len() == to - from);
            assert forall|k: int| 0 <= k < 8 implies #[trigger] packed[json_end + k] == bytes[from
                + k] by {
                assert(bin[k] == bytes[from + k]);
            }
            assert(packed[json_end] == packed[json_end + 0]);
            assert(le32(packed, json_end) == le32(bytes, from));
            assert(is_bin_chunk(packed, json_end));
            assert(chunk_end(packed, json_end) == packed.len());
            assert(chunk_error(packed, json_end) is None);
            let found = Chunks {
                bin: Some((json_end, packed.len() as int)),
                unknown: false,
            };
            assert(scan(packed, packed.len() as int, found) == Ok::<Chunks, GlbError>(found));
            assert(scan(packed, json_end, start) == Ok::<Chunks, GlbError>(found));
            assert(bin_chunk(packed) =~= bin);
        },
    }
}

/// Normalizing keeps the JSON and BIN chunks and nothing else, declares the
/// length that is left, and changes nothing the second time.
pub proof fn normalized_container_is_stable(bytes: Seq<u8>)
    requires
        is_container(bytes),
    ensures
        is_container(normalized(bytes)),
        normalized(bytes) == repacked(bytes),
        le32(normalized(bytes), 8) == normalized(bytes).len(),
        json_chunk(normalized(bytes)) == json_chunk(bytes),
        bin_chunk(normalized(bytes)) == bin_chunk(bytes),
        chunks_of(normalized(bytes))->Ok_0.unknown == false,
        normalized(normalized(bytes)) == normalized(bytes),
{
    if chunks_of(bytes)->Ok_0.unknown {
        repacked_is_known(bytes);
    } else {
        known_chunks_fill_the_container(bytes);
    }
}

/// Four bytes are read with the lowest first, and writing a number gives bytes
/// that read as it.
pub proof fn numbers_are_read_as_written(value: int)
    requires
        0 <= value <= u32::MAX,
    ensures
        le32(le32_bytes(value), 0) == value,
        le32_bytes(value)[0] == value % 256,
        le32_bytes(value)[3] == value / 16_777_216,
{
}

/// A container starts with its magic, the version two and its own length, and
/// its first chunk is text.
pub proof fn containers_start_with_their_header(bytes: Seq<u8>)
    requires
        is_container(bytes),
    ensures
        bytes.len() >= 20,
        bytes[0] == 0x67 && bytes[1] == 0x6c && bytes[2] == 0x54 && bytes[3] == 0x46,
        bytes[4] == 2 && bytes[5] == 0 && bytes[6] == 0 && bytes[7] == 0,
        bytes[8] + 256 * bytes[9] + 65_536 * bytes[10] + 16_777_216 * bytes[11] == bytes.len(),
        bytes[16] == 0x4a && bytes[17] == 0x53 && bytes[18] == 0x4f && bytes[19] == 0x4e,
        20 + bytes[12] + 256 * bytes[13] + 65_536 * bytes[14] + 16_777_216 * bytes[15]
            <= bytes.len(),
{
}

proof fn scanned_chunks(bytes: Seq<u8>, at: int, seen: Chunks)
    requires
        0 <= at <= bytes.len(),
        scan(bytes, at, seen) is Ok,
    ensures
        ({
            let found = scan(bytes, at, seen)->Ok_0;
            &&& seen.bin is Some ==> found.bin == seen.bin
            &&& seen.unknown ==> found.unknown
            &&& seen.bin is None ==> (found.bin matches Some((start, end)) ==> at <= start && start
                + 8 <= end <= bytes.len() && bytes[start + 4] == 0x42 && bytes[start + 5] == 0x49
                && bytes[start + 6] == 0x4e && bytes[start + 7] == 0 && end == start + 8
                + bytes[start] + 256 * bytes[start + 1] + 65_536 * bytes[start + 2] + 16_777_216
                * bytes[start + 3])
        }),
    decreases bytes.len() - at,
{
    if at < bytes.len() {
        let end = chunk_end(bytes, at);
        if is_bin_chunk(bytes, at) {
            scanned_chunks(bytes, end, Chunks { bin: Some((at, end)), unknown: seen.unknown });
        } else {
            scanned_chunks(bytes, end, Chunks { bin: seen.bin, unknown: true });
        }
    }
}

/// The data of a container lies in a chunk behind the text, which is tagged as
/// data and as long as its header says.
pub proof fn data_lies_in_its_chunk(bytes: Seq<u8>)
    requires
        is_container(bytes),
    ensures
        chunks_of(bytes)->Ok_0.bin matches Some((start, end)) ==> {
            &&& 20 <= start
            &&& start + 8 <= end <= bytes.len()
            &&& bytes[start + 4] == 0x42 && bytes[start + 5] == 0x49 && bytes[start + 6] == 0x4e
                && bytes[start + 7] == 0
            &&& end == start + 8 + bytes[start] + 256 * bytes[start + 1] + 65_536 * bytes[start + 2]
                + 16_777_216 * bytes[start + 3]
        },
{
    scanned_chunks(bytes, chunk_end(bytes, 12), Chunks { bin: None, unknown: false });
}

/// A container without unknown chunks is handed on as it is; of another, the
/// magic and the version, the text chunk and the data chunk are kept, byte for
/// byte, and the length is written anew.
pub proof fn normalizing_keeps_text_and_data(bytes: Seq<u8>, i: int)
    requires
        is_container(bytes),
    ensures
        !chunks_of(bytes)->Ok_0.unknown ==> normalized(bytes) == bytes,
        0 <= i < 8 ==> normalized(bytes)[i] == bytes[i],
        12 <= i < chunk_end(bytes, 12) ==> normalized(bytes)[i] == bytes[i],
        chunks_of(bytes)->Ok_0.unknown ==> {
            let text = chunk_end(bytes, 12) - 12;
            match chunks_of(bytes)->Ok_0.bin {
                Some((start, end)) => {
                    &&& normalized(bytes).len() == 12 + text + (end - start)
                    &&& 0 <= i < end - start ==> normalized(bytes)[12 + text + i] == bytes[start
                        + i]
                },
                None => normalized(bytes).len() == 12 + text,
            }
        },
{
    data_lies_in_its_chunk(bytes);
}

} // verus!
