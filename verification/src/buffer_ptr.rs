//! Byte buffers in guest memory: the bytes as they are, from the handle on,
//! with their number in the header.
use crate::env::{
    answer_at, call_of, handle_bits, holding_at, lemma_release_kept, outcome, refusal, reply,
    stored_at, Env,
};
use crate::guest::{
    byte_len, load_bytes, memory_bytes, memory_is_from, memory_store, store_bytes, store_id,
    lemma_with_bytes, with_bytes, Event, Guest,
};
use crate::header::{
    lemma_header_kept, reachable, read_size, recorded_size, size_of, HEADER_SIZE,
};
use crate::{Error, Export, Read, Write};
use vstd::prelude::*;
use wasmer::{Memory, StoreMut};

verus! {

/// The class under which the guest allocates byte buffers.
pub const BUFFER_CLASS: i32 = 0;

/// The handle of a byte buffer: the byte offset of its first byte.
#[derive(Clone, Copy, Debug, PartialEq, Eq, Structural)]
pub struct BufferPtr(u32);

/// What storing bytes at a handle makes of a memory.
pub open spec fn stored(bytes: Seq<u8>, handle: u32, data: Seq<u8>) -> Result<Seq<u8>, Error> {
    if reachable(bytes, handle, data.len()) {
        Ok(with_bytes(bytes, handle as int, data))
    } else {
        Err(Error::OutOfBounds)
    }
}

/// Whether a memory holds these bytes at a handle.
pub open spec fn holds_bytes(bytes: Seq<u8>, handle: u32, data: Seq<u8>) -> bool {
    &&& reachable(bytes, handle, data.len())
    &&& bytes.subrange(handle as int, handle + data.len()) == data
}

/// The buffer that a memory holds at a handle: as many bytes as the header records.
pub open spec fn buffer_at(bytes: Seq<u8>, handle: u32) -> Result<Seq<u8>, Error> {
    match recorded_size(bytes, handle) {
        Err(error) => Err(error),
        Ok(size) => if reachable(bytes, handle, size as nat) {
            Ok(bytes.subrange(handle as int, handle + size))
        } else {
            Err(Error::MemoryFault)
        },
    }
}

/// The size argument for a number of bytes: that number, as far as the
/// argument's 32 bits with a sign reach.
pub open spec fn size_argument(count: nat) -> Result<i32, Error> {
    if count <= i32::MAX {
        Ok(count as i32)
    } else {
        Err(Error::SizeOverflow)
    }
}

/// What was stored at a handle is what the memory then holds there, and the
/// header in front of it is as it was.
pub proof fn lemma_stored_holds(bytes: Seq<u8>, handle: u32, data: Seq<u8>)
    requires
        stored(bytes, handle, data) is Ok,
    ensures
        holds_bytes(stored(bytes, handle, data)->Ok_0, handle, data),
        stored(bytes, handle, data)->Ok_0.len() == bytes.len(),
        recorded_size(stored(bytes, handle, data)->Ok_0, handle) == recorded_size(bytes, handle),
{
    let after = with_bytes(bytes, handle as int, data);
    lemma_with_bytes(bytes, handle as int, data);
    lemma_header_kept(bytes, after, handle);
}

/// Bytes that a memory holds at a handle, under a header that records their
/// number, are the buffer that is read there.
pub proof fn lemma_read_back(bytes: Seq<u8>, handle: u32, data: Seq<u8>)
    requires
        holds_bytes(bytes, handle, data),
        recorded_size(bytes, handle) == Ok::<u32, Error>(data.len() as u32),
        data.len() <= u32::MAX,
    ensures
        buffer_at(bytes, handle) == Ok::<Seq<u8>, Error>(data),
{
}

/// Bytes stored at a handle whose header records their number are read back
/// as they were: storing, then reading, loses nothing.
pub proof fn lemma_round_trip(bytes: Seq<u8>, handle: u32, data: Seq<u8>)
    requires
        stored(bytes, handle, data) is Ok,
        recorded_size(bytes, handle) == Ok::<u32, Error>(data.len() as u32),
        data.len() <= u32::MAX,
    ensures
        buffer_at(stored(bytes, handle, data)->Ok_0, handle) == Ok::<Seq<u8>, Error>(data),
{
    lemma_stored_holds(bytes, handle, data);
    lemma_read_back(stored(bytes, handle, data)->Ok_0, handle, data);
}

/// No handle below the header size can be read, whatever the memory holds.
pub proof fn lemma_low_handle_unreadable(bytes: Seq<u8>, handle: u32)
    requires
        handle < HEADER_SIZE,
    ensures
        buffer_at(bytes, handle) == Err::<Seq<u8>, Error>(Error::InvalidOffset),
{
}

/// The size by which the allocator is asked for a number of bytes.
pub fn request_size(count: usize) -> (size: Result<i32, Error>)
    ensures
        size == size_argument(count as nat),
{
    if count > 0x7FFF_FFFF {
        Err(Error::SizeOverflow)
    } else {
        Ok(count as i32)
    }
}

/// Reads the byte length that the memory records for a buffer's handle.
pub fn size(offset: u32, guest: &Guest<'_>, memory: &Memory) -> (size: Result<u32, Error>)
    ensures
        size == if memory_store(*memory) == store_id(guest.store) {
            recorded_size(memory_bytes(guest.store, *memory), offset)
        } else {
            Err(Error::WrongStore)
        },
{
    size_of(offset, guest, memory)
}

/// Stores bytes from a handle on. Either all of them are stored or, where
/// they do not fit, none.
pub(crate) fn store_buffer(
    offset: u32,
    value: &[u8],
    guest: &mut Guest<'_>,
    memory: &Memory,
) -> (done: Result<(), Error>)
    requires
        memory_store(*memory) == store_id(old(guest).store),
    ensures
        store_id(final(guest).store) == store_id(old(guest).store),
        match stored(memory_bytes(old(guest).store, *memory), offset, value@) {
            Ok(bytes) => {
                &&& done is Ok
                &&& memory_bytes(final(guest).store, *memory) == bytes
                &&& final(guest).events@ == old(guest).events@.push(
                    (Event::Stored {
                        memory: *memory,
                        offset: offset as int,
                        bytes: value@,
                        holding: bytes,
                    }),
                )
            },
            Err(error) => done == Err::<(), Error>(error) && *final(guest) == *old(guest),
        },
{
    let len: u64 = byte_len(&guest.store, memory);
    let start: u64 = offset as u64;
    if start > len || value.len() as u64 > len - start {
        return Err(Error::OutOfBounds);
    }
    let done: bool = guest.put(memory, start, value);
    assert(done);
    Ok(())
}

/// Stores a buffer at a handle. Either all of it is stored or, where
/// it does not fit or the memory is of another store, nothing. The guest is
/// not called.
pub fn write_buffer(
    offset: u32,
    value: &[u8],
    guest: &mut Guest<'_>,
    memory: &Memory,
) -> (done: Result<(), Error>)
    ensures
        store_id(final(guest).store) == store_id(old(guest).store),
        memory_store(*memory) != store_id(old(guest).store) ==> done == Err::<(), Error>(
            Error::WrongStore,
        ) && *final(guest) == *old(guest),
        memory_store(*memory) == store_id(old(guest).store) ==> match stored(
            memory_bytes(old(guest).store, *memory),
            offset,
            value@,
        ) {
            Ok(bytes) => {
                &&& done is Ok
                &&& memory_bytes(final(guest).store, *memory) == bytes
                &&& final(guest).events@ == old(guest).events@.push(
                    (Event::Stored {
                        memory: *memory,
                        offset: offset as int,
                        bytes: value@,
                        holding: bytes,
                    }),
                )
            },
            Err(error) => done == Err::<(), Error>(error) && *final(guest) == *old(guest),
        },
{
    if !memory_is_from(&guest.store, memory) {
        return Err(Error::WrongStore);
    }
    store_buffer(offset, value, guest, memory)
}

/// The handle in what an allocation gave, or the error.
pub open spec fn handle_of(ptr: Result<Box<BufferPtr>, Error>) -> Result<u32, Error> {
    match ptr {
        Ok(p) => Ok((*p)@),
        Err(error) => Err(error),
    }
}

/// Stores bytes at a handle that the guest has just handed out, then pins
/// the handle: `pin` is called with it. Where they do not fit, nothing is
/// stored and nothing pinned. Where the guest has no `pin`, the memory is left
/// as the storing made it. Bindings of another store are not touched.
pub fn place(handle: u32, value: &[u8], guest: &mut Guest<'_>, env: &Env) -> (ptr: Result<
    Box<BufferPtr>,
    Error,
>)
    ensures
        store_id(final(guest).store) == store_id(old(guest).store),
        !env.lives_in(*old(guest)) ==> ptr == Err::<Box<BufferPtr>, Error>(Error::WrongStore)
            && *final(guest) == *old(guest),
        env.lives_in(*old(guest)) ==> match stored(env.bytes(*old(guest)), handle, value@) {
            Err(error) => ptr == Err::<Box<BufferPtr>, Error>(error)
                && *final(guest) == *old(guest),
            Ok(bytes) => {
                &&& final(guest).events@ == old(guest).events@ + env.storing(
                    handle,
                    value@,
                    bytes,
                ) + call_of(
                    env.fn_pin,
                    seq![handle_bits(handle)],
                    answer_at(final(guest).events@, old(guest).events@.len() as int + 1),
                )
                &&& handle_of(ptr) == match outcome(
                    env.fn_pin,
                    answer_at(final(guest).events@, old(guest).events@.len() as int + 1),
                ) {
                    Ok(_) => Ok::<u32, Error>(handle),
                    Err(error) => Err::<u32, Error>(error),
                }
                &&& env.fn_pin is None ==> env.bytes(*final(guest)) == bytes
            },
        },
{
    if !env.serves(guest) {
        return Err(Error::WrongStore);
    }
    let ghost before = guest.events@;
    match store_buffer(handle, value, guest, &env.memory) {
        Ok(()) => {
            let ghost middle = guest.events@;
            assert(middle =~= before + env.storing(
                handle,
                value@,
                env.bytes(*guest),
            ));
            let done = env.pin(guest, handle);
            proof {
                assert(middle.len() == before.len() + 1);
            }
            match done {
                Ok(()) => Ok(Box::new(BufferPtr(handle))),
                Err(error) => Err(error),
            }
        },
        Err(error) => Err(error),
    }
}

impl View for BufferPtr {
    type V = u32;

    closed spec fn view(&self) -> u32 {
        self.0
    }
}

impl BufferPtr {
    /// The handle at a byte offset.
    pub fn new(offset: u32) -> (ptr: Self)
        ensures
            ptr@ == offset,
    {
        BufferPtr(offset)
    }

    /// The byte offset of the first byte.
    pub fn offset(&self) -> (offset: u32)
        ensures
            offset == self@,
    {
        self.0
    }
}

impl Read<Vec<u8>> for BufferPtr {
    /// Reads the buffer at the handle: as many bytes as the header records.
    fn read(&self, guest: &Guest<'_>, memory: &Memory) -> (buffer: Result<Vec<u8>, Error>)
        ensures
            memory_store(*memory) != store_id(guest.store) ==> buffer == Err::<Vec<u8>, Error>(
                Error::WrongStore,
            ),
            memory_store(*memory) == store_id(guest.store) ==> match buffer {
                Ok(data) => buffer_at(memory_bytes(guest.store, *memory), self@) == Ok::<
                    Seq<u8>,
                    Error,
                >(data@),
                Err(error) => buffer_at(memory_bytes(guest.store, *memory), self@) == Err::<
                    Seq<u8>,
                    Error,
                >(error),
            },
    {
        let store = &guest.store;
        if !memory_is_from(store, memory) {
            return Err(Error::WrongStore);
        }
        let size: u32 = match read_size(self.0, store, memory) {
            Ok(size) => size,
            Err(error) => {
                return Err(error);
            },
        };
        if self.0 as u64 + size as u64 > byte_len(store, memory) {
            return Err(Error::MemoryFault);
        }
        match load_bytes(store, memory, self.0 as u64, size as usize) {
            Some(data) => Ok(data),
            None => Err(Error::MemoryFault),
        }
    }

    /// Reads the byte length that the memory records for the handle.
    fn size(&self, guest: &Guest<'_>, memory: &Memory) -> (size: Result<u32, Error>)
        ensures
            size == if memory_store(*memory) == store_id(guest.store) {
                recorded_size(memory_bytes(guest.store, *memory), self@)
            } else {
                Err(Error::WrongStore)
            },
    {
        size(self.0, guest, memory)
    }
}

/// What an allocation owes once it is not refused: the events are those of
/// the allocation, read with what the guest answered; the result is the handle
/// that `new` answered, or what went wrong first; where nothing was stored at
/// the handle, the value does not fit in the memory as the guest left it;
/// where it was stored, the memory then held it at the handle, and holds it
/// still where the guest has no `pin` to call after it.
pub open spec fn allocated(
    env: &Env,
    size: i32,
    content: Seq<u8>,
    before: Seq<Event>,
    at: int,
    after: Guest<'_>,
    ptr: Result<Box<BufferPtr>, Error>,
) -> bool {
    let bytes = content;
    let events = after.events@;
    &&& events == before + env.allocation_events(size, BUFFER_CLASS, bytes, events, at)
    &&& handle_of(ptr) == env.allocation_result(events, at)
    &&& reply(answer_at(events, at)) matches Ok(handle) ==> if stored_at(events, at + 1) {
        &&& holds_bytes(holding_at(events, at + 1), handle, content)
        &&& env.fn_pin is None ==> env.bytes(after) == holding_at(events, at + 1)
    } else {
        !reachable(env.bytes(after), handle, bytes.len())
    }
}

/// What a write owes where the sizes differ and the allocation is not
/// refused: the old handle is released and, where that went well, the value is
/// allocated anew, in this order.
pub open spec fn reallocated(
    env: &Env,
    handle: u32,
    size: i32,
    content: Seq<u8>,
    before: Seq<Event>,
    after: Guest<'_>,
    ptr: Result<Box<BufferPtr>, Error>,
) -> bool {
    let at = before.len() as int;
    let released = env.release_events(handle, after.events@, at);
    match env.release_result(handle, after.events@, at) {
        Err(error) => after.events@ == before + released && ptr == Err::<Box<BufferPtr>, Error>(
            error,
        ),
        Ok(_) => allocated(env, size, content, before + released, at + released.len(), after, ptr),
    }
}

/// What was allocated reads back: where an allocation gave a handle and the
/// header at it records the size of the value, the memory as the storing left
/// it reads as the value; and so does the guest's memory after the allocation
/// where the guest has no `pin` that runs after the storing.
pub proof fn lemma_allocated_reads_back(
    env: &Env,
    size: i32,
    data: Seq<u8>,
    before: Seq<Event>,
    at: int,
    after: Guest<'_>,
    ptr: Result<Box<BufferPtr>, Error>,
)
    requires
        allocated(env, size, data, before, at, after, ptr),
        ptr is Ok,
        data.len() <= u32::MAX,
        recorded_size(holding_at(after.events@, at + 1), (*ptr->Ok_0)@) == Ok::<u32, Error>(
            data.len() as u32,
        ),
    ensures
        buffer_at(holding_at(after.events@, at + 1), (*ptr->Ok_0)@) == Ok::<Seq<u8>, Error>(data),
        env.fn_pin is None ==> buffer_at(env.bytes(after), (*ptr->Ok_0)@)
            == Ok::<Seq<u8>, Error>(data),
{
    lemma_read_back(holding_at(after.events@, at + 1), (*ptr->Ok_0)@, data);
}

impl Write<Vec<u8>> for BufferPtr {
    /// Asks the guest for as many bytes as the buffer has, stores them at the
    /// handle that it answers with, and pins the handle: `new` with the size
    /// and the class of buffers, then `pin` with the handle.
    ///
    /// Where the allocation is refused, nothing is called and the guest stays
    /// as it is. Past that the guest decides; where it has no `pin`, the memory
    /// holds the bytes at the new handle afterwards.
    fn allocate(value: &Vec<u8>, guest: &mut Guest<'_>, env: &Env) -> (ptr: Result<
        Box<BufferPtr>,
        Error,
    >)
        ensures
            store_id(final(guest).store) == store_id(old(guest).store),
            match refusal(env, *old(guest), size_argument(value@.len())) {
                Some(error) => ptr == Err::<Box<BufferPtr>, Error>(error)
                    && *final(guest) == *old(guest),
                None => allocated(
                    env,
                    size_argument(value@.len())->Ok_0,
                    value@,
                    old(guest).events@,
                    old(guest).events@.len() as int,
                    *final(guest),
                    ptr,
                ),
            },
    {
        if !env.serves(guest) {
            return Err(Error::WrongStore);
        }
        if !env.has(Export::New) {
            return Err(Error::AllocatorUnavailable(Export::New));
        }
        let size: i32 = match request_size(value.len()) {
            Ok(size) => size,
            Err(error) => {
                return Err(error);
            },
        };
        let ghost before = guest.events@;
        let ghost at = before.len() as int;
        match env.reserve(guest, size, BUFFER_CLASS) {
            Ok(handle) => {
                let ghost middle = guest.events@;
                proof {
                    assert(middle.len() == at + 1);
                    if stored(env.bytes(*guest), handle, value@) is Ok {
                        lemma_stored_holds(env.bytes(*guest), handle, value@);
                    }
                }
                let ptr = place(handle, value.as_slice(), guest, env);
                proof {
                    let after = guest.events@;
                    assert(after[at] == middle[at]);
                    assert(answer_at(after, at) == answer_at(middle, at));
                    assert(reply(answer_at(after, at)) == Ok::<u32, Error>(handle));
                    assert(value@.len() == value@.len());
                    if after.len() == at + 1 {
                        assert(after =~= before + env.allocation_events(
                            size,
                            BUFFER_CLASS,
                            value@,
                            after,
                            at,
                        ));
                    } else {
                        assert(after[at + 1] is Stored);
                        assert(after =~= before + env.allocation_events(
                            size,
                            BUFFER_CLASS,
                            value@,
                            after,
                            at,
                        ));
                    }
                }
                ptr
            },
            Err(error) => {
                proof {
                    let after = guest.events@;
                    assert(after =~= before + env.allocation_events(
                        size,
                        BUFFER_CLASS,
                        value@,
                        after,
                        at,
                    ));
                }
                Err(error)
            },
        }
    }

    /// Stores the bytes at the handle where their number is the recorded one:
    /// the guest is not called, the handle stays, and the memory then reads as
    /// the buffer. Where the sizes differ, the handle is released and the
    /// buffer is allocated anew, in this order: `unpin`, `collect`, `new`,
    /// `pin`. The handle that is returned replaces this one.
    fn write(&mut self, value: &Vec<u8>, guest: &mut Guest<'_>, env: &Env) -> (ptr: Result<
        Box<BufferPtr>,
        Error,
    >)
        ensures
            *final(self) == *old(self),
            store_id(final(guest).store) == store_id(old(guest).store),
            !env.lives_in(*old(guest)) ==> ptr == Err::<Box<BufferPtr>, Error>(Error::WrongStore)
                && *final(guest) == *old(guest),
            env.lives_in(*old(guest)) ==> match recorded_size(
                env.bytes(*old(guest)),
                old(self)@,
            ) {
                Err(error) => ptr == Err::<Box<BufferPtr>, Error>(error)
                    && *final(guest) == *old(guest),
                Ok(size) => if size == value@.len() {
                    match stored(env.bytes(*old(guest)), old(self)@, value@) {
                        Ok(bytes) => {
                            &&& final(guest).events@ == old(guest).events@ + env.storing(
                                old(self)@,
                                value@,
                                bytes,
                            )
                            &&& ptr matches Ok(p)
                            &&& *p == *old(self)
                            &&& env.bytes(*final(guest)) == bytes
                            &&& buffer_at(bytes, old(self)@) == Ok::<Seq<u8>, Error>(value@)
                        },
                        Err(error) => ptr == Err::<Box<BufferPtr>, Error>(error) && *final(guest)
                            == *old(guest),
                    }
                } else {
                    match refusal(env, *old(guest), size_argument(value@.len())) {
                        Some(error) => ptr == Err::<Box<BufferPtr>, Error>(error)
                            && *final(guest) == *old(guest),
                        None => reallocated(
                            env,
                            old(self)@,
                            size_argument(value@.len())->Ok_0,
                            value@,
                            old(guest).events@,
                            *final(guest),
                            ptr,
                        ),
                    }
                },
            },
    {
        if !env.serves(guest) {
            return Err(Error::WrongStore);
        }
        let recorded: u32 = match read_size(self.0, &guest.store, &env.memory) {
            Ok(size) => size,
            Err(error) => {
                return Err(error);
            },
        };
        if recorded as usize == value.len() {
            proof {
                if stored(env.bytes(*guest), self.0, value@) is Ok {
                    lemma_round_trip(env.bytes(*guest), self.0, value@);
                }
            }
            let ghost before = guest.events@;
            match store_buffer(self.0, value.as_slice(), guest, &env.memory) {
                Ok(()) => {
                    assert(guest.events@ =~= before + env.storing(
                        self.0,
                        value@,
                        env.bytes(*guest),
                    ));
                    Ok(Box::new(*self))
                },
                Err(error) => Err(error),
            }
        } else {
            if !env.has(Export::New) {
                return Err(Error::AllocatorUnavailable(Export::New));
            }
            if request_size(value.len()).is_err() {
                return Err(Error::SizeOverflow);
            }
            let ghost before = guest.events@;
            let ghost at = before.len() as int;
            match env.release(guest, self.0) {
                Ok(()) => {
                    let ghost middle = guest.events@;
                    let ptr = Self::allocate(value, guest, env);
                    proof {
                        let after = guest.events@;
                        let released = env.release_events(self.0, middle, at);
                        assert(middle.len() == at + released.len());
                        assert forall|i: int| 0 <= i < middle.len() implies after[i]
                            == middle[i] by {
                        }
                        lemma_release_kept(env, self.0, middle, after, at);
                        assert(after =~= before + released + env.allocation_events(
                            size_argument(value@.len())->Ok_0,
                            BUFFER_CLASS,
                            value@,
                            after,
                            at + released.len(),
                        ));
                    }
                    ptr
                },
                Err(error) => Err(error),
            }
        }
    }

    /// Gives up the host's hold on the buffer: `unpin` is called with the
    /// handle and, where that went well, `collect`. To be called once for an
    /// allocation that was pinned. Where the guest has neither function,
    /// nothing is called and the guest stays as it is.
    fn free(self, guest: &mut Guest<'_>, env: &Env) -> (done: Result<(), Error>)
        ensures
            store_id(final(guest).store) == store_id(old(guest).store),
            !env.lives_in(*old(guest)) ==> done == Err::<(), Error>(Error::WrongStore)
                && *final(guest) == *old(guest),
            env.lives_in(*old(guest)) ==> {
                &&& final(guest).events@ == old(guest).events@ + env.release_events(
                    self@,
                    final(guest).events@,
                    old(guest).events@.len() as int,
                )
                &&& done == env.release_result(
                    self@,
                    final(guest).events@,
                    old(guest).events@.len() as int,
                )
                &&& env.fn_unpin is None && env.fn_collect is None ==> *final(guest) == *old(guest)
            },
    {
        env.release(guest, self.0)
    }
}

} // verus!
