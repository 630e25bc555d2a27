//! Where the guest's allocator keeps the byte length of an allocation: in the
//! little-endian 32-bit word that ends where the payload begins.
use crate::guest::{
    byte_len, load_bytes, memory_bytes, memory_is_from, memory_store, store_id, Guest,
};
use crate::Error;
use vstd::prelude::*;
use wasmer::{Memory, StoreMut};

verus! {

/// The size of the header word, in bytes, and so the least handle that has one.
pub const HEADER_SIZE: u32 = 4;

/// The 32-bit value that four bytes make, lowest byte first.
pub open spec fn word_at(bytes: Seq<u8>, at: int) -> u32 {
    (bytes[at] as int + 0x100 * (bytes[at + 1] as int) + 0x1_0000 * (bytes[at + 2] as int)
        + 0x100_0000 * (bytes[at + 3] as int)) as u32
}

/// The index of a handle's header among the 32-bit words of the memory.
pub open spec fn header_index(handle: u32) -> int {
    handle as int / 4 - 1
}

/// The byte address of a handle's header word.
pub open spec fn header_address(handle: u32) -> int {
    4 * header_index(handle)
}

/// The byte length that a memory records for a handle.
pub open spec fn recorded_size(bytes: Seq<u8>, handle: u32) -> Result<u32, Error> {
    if handle < HEADER_SIZE {
        Err(Error::InvalidOffset)
    } else if header_address(handle) + HEADER_SIZE > bytes.len() {
        Err(Error::OutOfBounds)
    } else {
        Ok(word_at(bytes, header_address(handle)))
    }
}

/// Whether `size` bytes from a handle on lie within the memory.
pub open spec fn reachable(bytes: Seq<u8>, handle: u32, size: nat) -> bool {
    handle + size <= bytes.len()
}

/// The word that four bytes make, lowest byte first.
pub(crate) fn word_of(bytes: &Vec<u8>) -> (word: u32)
    requires
        bytes@.len() == 4,
    ensures
        word == word_at(bytes@, 0),
{
    let low: u32 = bytes[0] as u32 + 0x100 * (bytes[1] as u32);
    let high: u32 = bytes[2] as u32 + 0x100 * (bytes[3] as u32);
    low + 0x1_0000 * high
}

/// Reads the header word of a handle in a memory of the store.
pub(crate) fn read_size(handle: u32, store: &StoreMut<'_>, memory: &Memory) -> (size: Result<
    u32,
    Error,
>)
    requires
        memory_store(*memory) == store_id(*store),
    ensures
        size == recorded_size(memory_bytes(*store, *memory), handle),
{
    if handle < HEADER_SIZE {
        return Err(Error::InvalidOffset);
    }
    let address: u64 = ((handle / 4 - 1) * 4) as u64;
    if address + 4 > byte_len(store, memory) {
        return Err(Error::OutOfBounds);
    }
    match load_bytes(store, memory, address, 4) {
        Some(bytes) => Ok(word_of(&bytes)),
        None => Err(Error::OutOfBounds),
    }
}

/// Reads the byte length of the allocation that a handle names.
///
/// A handle below the header size has no header; one whose header word lies
/// beyond the memory cannot be read; a memory of another store is not looked
/// at.
pub fn size_of(handle: u32, guest: &Guest<'_>, memory: &Memory) -> (size: Result<u32, Error>)
    ensures
        size == if memory_store(*memory) == store_id(guest.store) {
            recorded_size(memory_bytes(guest.store, *memory), handle)
        } else {
            Err(Error::WrongStore)
        },
{
    if !memory_is_from(&guest.store, memory) {
        return Err(Error::WrongStore);
    }
    read_size(handle, &guest.store, memory)
}

/// No handle below the header size has a recorded size, whatever the memory holds.
pub proof fn lemma_low_handle_rejected(bytes: Seq<u8>, handle: u32)
    requires
        handle < HEADER_SIZE,
    ensures
        recorded_size(bytes, handle) == Err::<u32, Error>(Error::InvalidOffset),
{
}

/// Bytes stored at or behind a handle leave the handle's header as it was.
pub proof fn lemma_header_kept(bytes: Seq<u8>, after: Seq<u8>, handle: u32)
    requires
        after.len() == bytes.len(),
        forall|i: int| 0 <= i < handle && i < bytes.len() ==> after[i] == bytes[i],
    ensures
        recorded_size(after, handle) == recorded_size(bytes, handle),
{
}

} // verus!
