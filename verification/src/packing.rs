//! The packer: builds a tape image from a binary image.

use vstd::prelude::*;
use crate::tape::{
    byte_sum, chunk_at, chunk_count, chunk_record, chunk_records, chunks_of, fits, header,
    high_byte, low_byte, tape_image, trailer, Chunk, ADDRESS_SPACE, CHUNK_MARKER, END_MARKER,
    SYNC_BYTE, SYSTEM_FORMAT_BYTE,
};

verus! {

/// Why an image cannot be packed.
#[derive(Debug, Clone, Copy, PartialEq, Eq, Structural)]
pub enum PackError {
    /// The image is empty: there is nothing to write onto the tape.
    EmptyInput,
    /// The image would run past the end of the address space. `max_size` is
    /// the largest image that fits at the base address.
    CapacityExceeded { max_size: usize },
}

/// How an image was cut into chunks.
#[derive(Debug, Clone, Copy, PartialEq, Eq, Structural)]
pub struct PackReport {
    /// The number of chunks of 256 bytes.
    pub full_chunks: usize,
    /// The size of the last chunk, where it is shorter than 256 bytes.
    pub last_chunk_size: Option<usize>,
}

/// A tape image, and how the binary image in it was cut into chunks.
#[derive(Debug, PartialEq, Eq)]
pub struct PackedTape {
    pub image: Vec<u8>,
    pub report: PackReport,
}

/// The report on an image of the given length.
pub open spec fn report_for(length: nat) -> PackReport {
    PackReport {
        full_chunks: (length / 256) as usize,
        last_chunk_size: if length % 256 == 0 {
            None
        } else {
            Some((length % 256) as usize)
        },
    }
}

/// The outcome of the check that comes before packing.
pub open spec fn sanity_check(base_address: u16, length: nat) -> Result<(), PackError> {
    if !fits(length, base_address) {
        Err(PackError::CapacityExceeded { max_size: (ADDRESS_SPACE - base_address) as usize })
    } else if length == 0 {
        Err(PackError::EmptyInput)
    } else {
        Ok(())
    }
}

/// Checks that an image of the given length can be packed for the given base
/// address: it must not be empty, and it must fit into the address space
/// from the base address on.
pub fn input_file_sanity_check(base_address: u16, length: usize) -> (checked: Result<
    (),
    PackError,
>)
    ensures
        checked == sanity_check(base_address, length as nat),
{
    let max_size: usize = ADDRESS_SPACE - (base_address as usize);
    if length > max_size {
        Err(PackError::CapacityExceeded { max_size })
    } else if length == 0 {
        Err(PackError::EmptyInput)
    } else {
        Ok(())
    }
}

/// Appends the header: the leader, the sync byte, the format byte and the
/// entry name.
pub fn generate_data_entry_header(entry_name: &[u8], buffer: &mut Vec<u8>)
    requires
        entry_name@.len() == 6,
    ensures
        final(buffer)@ == old(buffer)@ + header(entry_name@),
{
    buffer.reserve(256 + 2 + 6);
    let mut counter: usize = 0;
    while counter < 256
        invariant
            counter <= 256,
            buffer@ == old(buffer)@ + Seq::new(counter as nat, |i: int| 0u8),
        decreases 256 - counter,
    {
        buffer.push(0);
        counter += 1;
    }
    buffer.push(SYNC_BYTE);
    buffer.push(SYSTEM_FORMAT_BYTE);
    let mut count: usize = 0;
    while count < 6
        invariant
            count <= 6,
            entry_name@.len() == 6,
            buffer@ == old(buffer)@ + Seq::new(256, |i: int| 0u8) + seq![
                SYNC_BYTE,
                SYSTEM_FORMAT_BYTE,
            ] + entry_name@.take(count as int),
        decreases 6 - count,
    {
        buffer.push(entry_name[count]);
        count += 1;
    }
}

/// Appends the record of one chunk and returns the number of data bytes in it.
pub fn pack_chunk(chunk_to_pack: &[u8], output_buffer: &mut Vec<u8>, load_address: u16) -> (packed:
    usize)
    ensures
        final(output_buffer)@ == old(output_buffer)@ + chunk_record(
            Chunk { load_address, data: chunk_to_pack@ },
        ),
        packed == chunk_to_pack@.len(),
{
    let length = chunk_to_pack.len();
    if length <= usize::MAX - 5 {
        output_buffer.reserve(5 + length);
    }
    let address_low: u8 = (load_address % 256) as u8;
    let address_high: u8 = (load_address / 256) as u8;

    output_buffer.push(CHUNK_MARKER);
    output_buffer.push((length % 256) as u8);
    output_buffer.push(address_low);
    output_buffer.push(address_high);

    let mut checksum: u8 = 0;
    checksum = checksum.wrapping_add(address_low);
    checksum = checksum.wrapping_add(address_high);

    let ghost start = output_buffer@;
    let mut chunk_iter: usize = 0;
    while chunk_iter < length
        invariant
            chunk_iter <= length,
            length == chunk_to_pack@.len(),
            address_low == low_byte(load_address),
            address_high == high_byte(load_address),
            output_buffer@ == start + chunk_to_pack@.take(chunk_iter as int),
            checksum == (address_low + address_high + byte_sum(chunk_to_pack@.take(chunk_iter as int))) % 256,
        decreases length - chunk_iter,
    {
        assert(chunk_to_pack@.take(chunk_iter + 1).drop_last() == chunk_to_pack@.take(
            chunk_iter as int,
        ));
        output_buffer.push(chunk_to_pack[chunk_iter]);
        checksum = checksum.wrapping_add(chunk_to_pack[chunk_iter]);
        chunk_iter += 1;
    }
    assert(chunk_to_pack@.take(length as int) == chunk_to_pack@);
    output_buffer.push(checksum);
    length
}

/// The records of the first chunks of a sequence are followed by the record
/// of the next one.
proof fn lemma_chunk_records_step(chunks: Seq<Chunk>, count: int)
    requires
        0 <= count < chunks.len(),
    ensures
        chunk_records(chunks.take(count + 1)) == chunk_records(chunks.take(count)) + chunk_record(
            chunks[count],
        ),
{
    assert(chunks.take(count + 1).drop_last() == chunks.take(count));
}

/// Cuts the image into chunks and appends their records. The image must fit
/// into the address space from the base address on.
pub fn pack_binary_image(input_buffer: &[u8], output_buffer: &mut Vec<u8>, base_address: u16) -> (report:
    PackReport)
    requires
        fits(input_buffer@.len(), base_address),
    ensures
        final(output_buffer)@ == old(output_buffer)@ + chunk_records(
            chunks_of(input_buffer@, base_address),
        ),
        report == report_for(input_buffer@.len()),
{
    let binary_image_length = input_buffer.len();
    let mut already_packed: usize = 0;
    let mut full_chunks_count: usize = 0;
    let mut last_chunk_size: Option<usize> = None;
    let ghost chunks = chunks_of(input_buffer@, base_address);

    assert(chunks.take(0) == Seq::<Chunk>::empty());
    while already_packed < binary_image_length
        invariant
            already_packed <= binary_image_length,
            binary_image_length == input_buffer@.len(),
            fits(input_buffer@.len(), base_address),
            chunks == chunks_of(input_buffer@, base_address),
            already_packed == binary_image_length || already_packed == 256 * full_chunks_count,
            full_chunks_count == already_packed / 256,
            last_chunk_size is Some ==> already_packed == binary_image_length,
            last_chunk_size == if already_packed == binary_image_length {
                report_for(binary_image_length as nat).last_chunk_size
            } else {
                None
            },
            output_buffer@ == old(output_buffer)@ + chunk_records(
                chunks.take(chunk_count(already_packed as nat) as int),
            ),
        decreases binary_image_length - already_packed,
    {
        let ghost index = full_chunks_count as int;
        let load_address: u16 = base_address + (already_packed as u16);
        proof {
            lemma_chunk_records_step(chunks, index);
        }
        if binary_image_length - already_packed > 255 {
            let chunk = &input_buffer[already_packed..already_packed + 256];
            assert(chunk_at(input_buffer@, base_address, index).data == chunk@);
            already_packed += pack_chunk(chunk, output_buffer, load_address);
            full_chunks_count += 1;
        } else {
            let chunk = &input_buffer[already_packed..binary_image_length];
            assert(chunk_at(input_buffer@, base_address, index).data == chunk@);
            let size = pack_chunk(chunk, output_buffer, load_address);
            last_chunk_size = Some(size);
            already_packed += size;
        }
    }
    assert(chunks.take(chunks.len() as int) == chunks);
    PackReport { full_chunks: full_chunks_count, last_chunk_size }
}

/// Appends the trailer: the end marker and the entry point, low byte first.
pub fn finalize_data_entry(entry_point: u16, output_buffer: &mut Vec<u8>)
    ensures
        final(output_buffer)@ == old(output_buffer)@ + trailer(entry_point),
{
    output_buffer.push(END_MARKER);
    output_buffer.push((entry_point % 256) as u8);
    output_buffer.push((entry_point / 256) as u8);
}

/// Packs a binary image into a tape image.
///
/// The image must not be empty and must fit into the address space from the
/// base address on; else nothing is packed and the error says which of the
/// two failed. The entry name is written as it is given.
pub fn pack(input_bytes: &[u8], entry_name: &[u8], base_address: u16, entry_point: u16) -> (packed:
    Result<PackedTape, PackError>)
    requires
        entry_name@.len() == 6,
    ensures
        match packed {
            Ok(tape) => {
                &&& 0 < input_bytes@.len()
                &&& fits(input_bytes@.len(), base_address)
                &&& tape.image@ == tape_image(entry_name@, input_bytes@, base_address, entry_point)
                &&& tape.report == report_for(input_bytes@.len())
            },
            Err(error) => sanity_check(base_address, input_bytes@.len()) == Err::<(), PackError>(
                error,
            ),
        },
{
    match input_file_sanity_check(base_address, input_bytes.len()) {
        Err(error) => Err(error),
        Ok(()) => {
            let mut output_buffer: Vec<u8> = Vec::new();
            generate_data_entry_header(entry_name, &mut output_buffer);
            let report = pack_binary_image(input_bytes, &mut output_buffer, base_address);
            finalize_data_entry(entry_point, &mut output_buffer);
            Ok(PackedTape { image: output_buffer, report })
        },
    }
}

} // verus!
