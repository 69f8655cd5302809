//! The layout of a tape image, as a mathematical model.
//!
//! Everything here is specification: the functions say which bytes a tape
//! image consists of, and the packer is proved against them.

use vstd::prelude::*;

verus! {

/// Number of zero bytes that lead a tape image in.
pub const LEADER_LENGTH: usize = 256;

/// Marks the end of the leader.
pub const SYNC_BYTE: u8 = 0xA5;

/// Says that the entry holds machine code ("system" format).
pub const SYSTEM_FORMAT_BYTE: u8 = 0x55;

/// Length of an entry name on tape.
pub const ENTRY_NAME_LENGTH: usize = 6;

/// First byte of every chunk record.
pub const CHUNK_MARKER: u8 = 0x3C;

/// First byte of the trailer.
pub const END_MARKER: u8 = 0x78;

/// Largest number of data bytes in one chunk.
pub const MAX_CHUNK_LENGTH: usize = 256;

/// Size of the Z80's address space.
pub const ADDRESS_SPACE: usize = 0x10000;

/// The less significant byte of an address.
pub open spec fn low_byte(address: u16) -> u8 {
    (address % 256) as u8
}

/// The more significant byte of an address.
pub open spec fn high_byte(address: u16) -> u8 {
    (address / 256) as u8
}

/// An address as it stands on tape: little-endian.
pub open spec fn address_bytes(address: u16) -> Seq<u8> {
    seq![low_byte(address), high_byte(address)]
}

/// What every tape image begins with: the leader, the sync byte and the
/// format byte.
pub open spec fn preamble() -> Seq<u8> {
    Seq::new(LEADER_LENGTH as nat, |i: int| 0u8) + seq![SYNC_BYTE, SYSTEM_FORMAT_BYTE]
}

/// The header: the preamble and the entry name.
pub open spec fn header(entry_name: Seq<u8>) -> Seq<u8> {
    preamble() + entry_name
}

/// The end marker and the entry point.
pub open spec fn trailer(entry_point: u16) -> Seq<u8> {
    seq![END_MARKER] + address_bytes(entry_point)
}

/// The sum of the bytes of a sequence, as an integer.
pub open spec fn byte_sum(data: Seq<u8>) -> int
    decreases data.len(),
{
    if data.len() == 0 {
        0
    } else {
        byte_sum(data.drop_last()) + data.last()
    }
}

/// The checksum of a chunk: the sum of the two bytes of its load address and
/// of its data bytes, of which only the lowest eight bits are kept.
pub open spec fn checksum(load_address: u16, data: Seq<u8>) -> u8 {
    ((low_byte(load_address) + high_byte(load_address) + byte_sum(data)) % 256) as u8
}

/// The byte that stands for a chunk's length: the length itself, but for a
/// full chunk of 256 bytes, which is written as 0.
pub open spec fn length_byte(length: nat) -> u8 {
    (length % 256) as u8
}

/// The length that a length byte stands for. No chunk is empty, so 0 is free
/// to mean 256.
pub open spec fn chunk_length(length_byte: u8) -> nat {
    if length_byte == 0 {
        256
    } else {
        length_byte as nat
    }
}

/// A piece of the binary image together with the address it is loaded at.
pub struct Chunk {
    pub load_address: u16,
    pub data: Seq<u8>,
}

/// A chunk as it stands on tape: the marker, the length byte, the load
/// address, the data and the checksum.
pub open spec fn chunk_record(chunk: Chunk) -> Seq<u8> {
    seq![CHUNK_MARKER, length_byte(chunk.data.len())] + address_bytes(chunk.load_address)
        + chunk.data + seq![checksum(chunk.load_address, chunk.data)]
}

/// The records of a sequence of chunks, one after the other.
pub open spec fn chunk_records(chunks: Seq<Chunk>) -> Seq<u8>
    decreases chunks.len(),
{
    if chunks.len() == 0 {
        Seq::empty()
    } else {
        chunk_records(chunks.drop_last()) + chunk_record(chunks.last())
    }
}

/// The number of chunks that an image of the given length is cut into.
pub open spec fn chunk_count(length: nat) -> nat {
    (length + 255) / 256
}

/// The chunk with the given index of an image that is loaded at `base_address`:
/// 256 bytes of it from offset `256 * index` on, or what is left of it there.
pub open spec fn chunk_at(image: Seq<u8>, base_address: u16, index: int) -> Chunk {
    let start = 256 * index;
    let end = if image.len() < start + 256 {
        image.len() as int
    } else {
        start + 256
    };
    Chunk { load_address: (base_address + start) as u16, data: image.subrange(start, end) }
}

/// The chunks that an image is cut into, in the order in which they are
/// written.
pub open spec fn chunks_of(image: Seq<u8>, base_address: u16) -> Seq<Chunk> {
    Seq::new(chunk_count(image.len()), |index: int| chunk_at(image, base_address, index))
}

/// The data of a sequence of chunks, one after the other.
pub open spec fn payload(chunks: Seq<Chunk>) -> Seq<u8>
    decreases chunks.len(),
{
    if chunks.len() == 0 {
        Seq::empty()
    } else {
        payload(chunks.drop_last()) + chunks.last().data
    }
}

/// Whether an image of the given length can be loaded at `base_address`
/// without running past the end of the address space.
pub open spec fn fits(length: nat, base_address: u16) -> bool {
    length <= ADDRESS_SPACE - base_address
}

/// The whole tape image of a binary image.
pub open spec fn tape_image(
    entry_name: Seq<u8>,
    image: Seq<u8>,
    base_address: u16,
    entry_point: u16,
) -> Seq<u8> {
    header(entry_name) + chunk_records(chunks_of(image, base_address)) + trailer(entry_point)
}

/// The number of chunks is the length of the image divided by 256, rounded
/// up. Every chunk but the last holds 256 bytes. The last one holds what is
/// left: the length modulo 256, or 256 where the length is a multiple of 256.
pub proof fn lemma_chunk_lengths(image: Seq<u8>, base_address: u16)
    ensures
        chunks_of(image, base_address).len() == if image.len() % 256 == 0 {
            image.len() / 256
        } else {
            image.len() / 256 + 1
        },
        256 * (chunks_of(image, base_address).len() - 1) < image.len() <= 256 * chunks_of(
            image,
            base_address,
        ).len(),
        forall|index: int|
            0 <= index < chunks_of(image, base_address).len() - 1 ==> (#[trigger] chunks_of(
                image,
                base_address,
            )[index]).data.len() == 256,
        image.len() > 0 ==> chunks_of(image, base_address).last().data.len() == if image.len()
            % 256 == 0 {
            256
        } else {
            image.len() % 256
        },
{
}

/// Chunk number `index` is loaded 256 bytes further on for each chunk before
/// it: at the base address plus `256 * index`. So the last chunk is loaded
/// at the base address plus 256 times the number of chunks before it. No
/// chunk runs past the end of the address space.
pub proof fn lemma_chunk_load_addresses(image: Seq<u8>, base_address: u16, index: int)
    requires
        fits(image.len(), base_address),
        0 <= index < chunks_of(image, base_address).len(),
    ensures
        chunks_of(image, base_address)[index].load_address == base_address + 256 * index,
        chunks_of(image, base_address)[index].load_address + chunks_of(
            image,
            base_address,
        )[index].data.len() - 1 <= 0xFFFF,
        chunks_of(image, base_address).last().load_address == base_address + 256 * (chunks_of(
            image,
            base_address,
        ).len() - 1),
{
}

/// No chunk of an image is empty, and none holds more than 256 bytes.
pub proof fn lemma_chunk_bounds(image: Seq<u8>, base_address: u16, index: int)
    requires
        0 <= index < chunks_of(image, base_address).len(),
    ensures
        1 <= chunks_of(image, base_address)[index].data.len() <= 256,
{
}

/// The length byte of a chunk gives its length back, and that of a full
/// chunk is 0.
pub proof fn lemma_length_byte(length: nat)
    requires
        1 <= length <= 256,
    ensures
        chunk_length(length_byte(length)) == length,
        length == 256 <==> length_byte(length) == 0,
{
}

/// In the record of a chunk of exactly 256 bytes the length byte is 0.
pub proof fn lemma_full_chunk_length_byte(chunk: Chunk)
    requires
        chunk.data.len() == 256,
    ensures
        chunk_record(chunk)[1] == 0,
{
}

/// The last byte of a chunk's record is the checksum of its load address and
/// its data.
pub proof fn lemma_record_ends_in_checksum(chunk: Chunk)
    ensures
        chunk_record(chunk).last() == checksum(chunk.load_address, chunk.data),
{
}

/// Changing one byte of a sequence changes its sum by the difference of the
/// two bytes.
pub proof fn lemma_byte_sum_update(data: Seq<u8>, index: int, byte: u8)
    requires
        0 <= index < data.len(),
    ensures
        byte_sum(data.update(index, byte)) == byte_sum(data) - data[index] + byte,
    decreases data.len(),
{
    let changed = data.update(index, byte);
    if index == data.len() - 1 {
        assert(changed.drop_last() == data.drop_last());
    } else {
        lemma_byte_sum_update(data.drop_last(), index, byte);
        assert(changed.drop_last() == data.drop_last().update(index, byte));
    }
}

/// The checksum detects the corruption of a single data byte: a chunk in
/// which one byte was changed no longer has the checksum it was stored with.
pub proof fn lemma_checksum_detects_corruption(
    load_address: u16,
    data: Seq<u8>,
    index: int,
    byte: u8,
)
    requires
        0 <= index < data.len(),
        byte != data[index],
    ensures
        checksum(load_address, data.update(index, byte)) != checksum(load_address, data),
{
    lemma_byte_sum_update(data, index, byte);
}

/// The data of the chunks of an image, put together again, is the image.
pub proof fn lemma_payload_of_chunks(image: Seq<u8>, base_address: u16)
    ensures
        payload(chunks_of(image, base_address)) == image,
{
    let chunks = chunks_of(image, base_address);
    lemma_payload_prefix(image, base_address, chunks.len() as int);
    assert(chunks.take(chunks.len() as int) == chunks);
    assert(image.take(image.len() as int) == image);
}

/// The data of the first `count` chunks of an image is the image as far as
/// those chunks reach.
proof fn lemma_payload_prefix(image: Seq<u8>, base_address: u16, count: int)
    requires
        0 <= count <= chunks_of(image, base_address).len(),
    ensures
        payload(chunks_of(image, base_address).take(count)) == image.take(
            if 256 * count < image.len() {
                256 * count
            } else {
                image.len() as int
            },
        ),
    decreases count,
{
    let chunks = chunks_of(image, base_address);
    if count == 0 {
        assert(chunks.take(0) == Seq::<Chunk>::empty());
    } else {
        lemma_payload_prefix(image, base_address, count - 1);
        assert(chunks.take(count).drop_last() == chunks.take(count - 1));
        assert(chunks.take(count).last() == chunk_at(image, base_address, count - 1));
    }
}

} // verus!
