//! How a tape image is read back, as a mathematical model, and the proof that
//! reading a packed image gives back what was packed.
//!
//! Nothing here is executable: the model only serves to state that no
//! information is lost on the way to the tape.

use vstd::prelude::*;
use crate::tape::{
    checksum, chunk_length, chunk_record, chunk_records, chunks_of, fits, header,
    high_byte, lemma_chunk_bounds, lemma_payload_of_chunks, low_byte, payload, preamble,
    tape_image, trailer, Chunk, CHUNK_MARKER, END_MARKER,
};

verus! {

/// What a tape image holds.
pub struct TapeContents {
    pub entry_name: Seq<u8>,
    pub chunks: Seq<Chunk>,
    pub entry_point: u16,
}

/// The address that two bytes on tape stand for.
pub open spec fn address_of(low: u8, high: u8) -> u16 {
    (low + 256 * high) as u16
}

/// Reads chunk records up to the trailer, which must end the tape. A record
/// whose checksum is wrong, and anything else that is no record, makes the
/// reading fail.
pub open spec fn read_records(tape: Seq<u8>) -> Option<(Seq<Chunk>, u16)>
    decreases tape.len(),
{
    if tape.len() == 3 && tape[0] == END_MARKER {
        Some((Seq::empty(), address_of(tape[1], tape[2])))
    } else if tape.len() >= 5 && tape[0] == CHUNK_MARKER {
        let length = chunk_length(tape[1]) as int;
        let chunk = Chunk {
            load_address: address_of(tape[2], tape[3]),
            data: tape.subrange(4, 4 + length),
        };
        if tape.len() >= 5 + length && tape[4 + length] == checksum(
            chunk.load_address,
            chunk.data,
        ) {
            match read_records(tape.skip(5 + length)) {
                Some((chunks, entry_point)) => Some((seq![chunk] + chunks, entry_point)),
                None => None,
            }
        } else {
            None
        }
    } else {
        None
    }
}

/// Reads a whole tape image: the header, the chunk records and the trailer.
pub open spec fn read_tape(tape: Seq<u8>) -> Option<TapeContents> {
    if tape.len() >= 264 && tape.take(258) == preamble() {
        match read_records(tape.skip(264)) {
            Some((chunks, entry_point)) => Some(
                TapeContents { entry_name: tape.subrange(258, 264), chunks, entry_point },
            ),
            None => None,
        }
    } else {
        None
    }
}

/// The two bytes of an address stand for that address.
pub proof fn lemma_address_bytes(address: u16)
    ensures
        address_of(low_byte(address), high_byte(address)) == address,
{
}

/// The records of a sequence of chunks begin with the record of the first.
proof fn lemma_chunk_records_front(chunks: Seq<Chunk>)
    requires
        chunks.len() > 0,
    ensures
        chunk_records(chunks) == chunk_record(chunks[0]) + chunk_records(chunks.skip(1)),
    decreases chunks.len(),
{
    if chunks.len() == 1 {
        assert(chunks.drop_last() == Seq::<Chunk>::empty());
        assert(chunks.skip(1) == Seq::<Chunk>::empty());
    } else {
        lemma_chunk_records_front(chunks.drop_last());
        assert(chunks.drop_last().skip(1) == chunks.skip(1).drop_last());
        assert(chunks.skip(1).last() == chunks.last());
    }
}

/// Reading the records of chunks, none of them empty or longer than 256
/// bytes, and a trailer gives back the chunks and the entry point.
pub proof fn lemma_read_records(chunks: Seq<Chunk>, entry_point: u16)
    requires
        forall|index: int|
            0 <= index < chunks.len() ==> 1 <= (#[trigger] chunks[index]).data.len() <= 256,
    ensures
        read_records(chunk_records(chunks) + trailer(entry_point)) == Some((chunks, entry_point)),
    decreases chunks.len(),
{
    let tape = chunk_records(chunks) + trailer(entry_point);
    lemma_address_bytes(entry_point);
    if chunks.len() == 0 {
        assert(tape == trailer(entry_point));
    } else {
        let first = chunks[0];
        let rest = chunks.skip(1);
        let length = first.data.len() as int;
        lemma_chunk_records_front(chunks);
        lemma_address_bytes(first.load_address);
        assert(tape == chunk_record(first) + (chunk_records(rest) + trailer(entry_point)));
        assert(chunk_record(first).len() == 5 + length);
        assert(tape[0] == CHUNK_MARKER);
        assert(chunk_length(tape[1]) == length);
        assert(tape.subrange(4, 4 + length) == first.data);
        assert(tape.skip(5 + length) == chunk_records(rest) + trailer(entry_point));
        assert forall|index: int| 0 <= index < rest.len() implies 1 <= (#[trigger] rest[index]).data.len() <= 256 by {
            assert(rest[index] == chunks[index + 1]);
        }
        lemma_read_records(rest, entry_point);
        assert(seq![first] + rest == chunks);
    }
}

/// Reading a packed image back gives the entry name, the chunks and the
/// entry point that were packed, and the data of the chunks is the binary
/// image, byte for byte.
pub proof fn lemma_read_back(
    entry_name: Seq<u8>,
    image: Seq<u8>,
    base_address: u16,
    entry_point: u16,
)
    requires
        entry_name.len() == 6,
        0 < image.len(),
        fits(image.len(), base_address),
    ensures
        read_tape(tape_image(entry_name, image, base_address, entry_point)) == Some(
            TapeContents { entry_name, chunks: chunks_of(image, base_address), entry_point },
        ),
        payload(chunks_of(image, base_address)) == image,
{
    let chunks = chunks_of(image, base_address);
    let tape = tape_image(entry_name, image, base_address, entry_point);
    assert forall|index: int| 0 <= index < chunks.len() implies 1 <= (#[trigger] chunks[index]).data.len() <= 256 by {
        lemma_chunk_bounds(image, base_address, index);
    }
    lemma_read_records(chunks, entry_point);
    lemma_payload_of_chunks(image, base_address);
    assert(tape == header(entry_name) + (chunk_records(chunks) + trailer(entry_point)));
    assert(header(entry_name).len() == 264);
    assert(tape.take(258) == preamble());
    assert(tape.skip(264) == chunk_records(chunks) + trailer(entry_point));
    assert(tape.subrange(258, 264) == entry_name);
}

} // verus!
