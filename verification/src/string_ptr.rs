//! Strings in guest memory: UTF-16 code units, each low byte first, from the
//! handle on, with twice their number in the header.
use crate::env::{
    answer_at, call_of, handle_bits, holding_at, lemma_release_kept, outcome, refusal, reply,
    stored_at, Env,
};
use crate::guest::{
    byte_len, load_bytes, memory_bytes, memory_is_from, memory_store, store_bytes, store_id,
    lemma_with_bytes, with_bytes, Event, Guest,
};
use crate::header::{
    lemma_header_kept, reachable, read_size, recorded_size, size_of, HEADER_SIZE,
};
use crate::utf16::{
    decode_lossy, decode_utf16_lossy, encode, encode_utf16, lemma_decode_encode,
    lemma_encode_decode, well_formed,
};
use crate::{Error, Export, Read, Write};
use vstd::prelude::*;
use wasmer::{Memory, StoreMut};

verus! {

/// The class under which the guest allocates strings.
pub const STRING_CLASS: i32 = 1;

/// The handle of a string: the byte offset of its first code unit.
#[derive(Clone, Copy, Debug, PartialEq, Eq, Structural)]
pub struct StringPtr(u32);

/// The code unit that two bytes make, low byte first.
pub open spec fn unit_at(bytes: Seq<u8>, at: int) -> u16 {
    (bytes[at] as int + 0x100 * (bytes[at + 1] as int)) as u16
}

/// `count` consecutive code units, the first at byte address `at`.
pub open spec fn units_at(bytes: Seq<u8>, at: int, count: nat) -> Seq<u16> {
    Seq::new(count, |i: int| unit_at(bytes, at + 2 * i))
}

/// One of the two bytes of a code unit: the low one first.
pub open spec fn unit_byte(unit: u16, part: int) -> u8 {
    if part == 0 {
        (unit % 0x100) as u8
    } else {
        (unit / 0x100) as u8
    }
}

/// The bytes of code units as the guest keeps them.
pub open spec fn unit_bytes(units: Seq<u16>) -> Seq<u8> {
    Seq::new(2 * units.len(), |i: int| unit_byte(units[i / 2], i % 2))
}

/// What storing code units at a handle makes of a memory.
pub open spec fn stored(bytes: Seq<u8>, handle: u32, units: Seq<u16>) -> Result<Seq<u8>, Error> {
    if reachable(bytes, handle, 2 * units.len()) {
        Ok(with_bytes(bytes, handle as int, unit_bytes(units)))
    } else {
        Err(Error::OutOfBounds)
    }
}

/// Whether a memory holds these code units at a handle.
pub open spec fn holds_units(bytes: Seq<u8>, handle: u32, units: Seq<u16>) -> bool {
    &&& reachable(bytes, handle, 2 * units.len())
    &&& units_at(bytes, handle as int, units.len()) == units
}

/// The text that a memory holds at a handle: as many code units as half the
/// recorded size, decoded.
pub open spec fn text_at(bytes: Seq<u8>, handle: u32) -> Result<Seq<char>, Error> {
    match recorded_size(bytes, handle) {
        Err(error) => Err(error),
        Ok(size) => if reachable(bytes, handle, (2 * (size / 2)) as nat) {
            Ok(decode_lossy(units_at(bytes, handle as int, (size / 2) as nat)))
        } else {
            Err(Error::MemoryFault)
        },
    }
}

/// The byte length by which the allocator is asked for a text.
pub open spec fn encoded_size(text: Seq<char>) -> nat {
    2 * encode(text).len()
}

/// The size argument for a number of code units: two bytes for each, as far
/// as the argument's 32 bits with a sign reach.
pub open spec fn size_argument(count: nat) -> Result<i32, Error> {
    if 2 * count <= i32::MAX {
        Ok((2 * count) as i32)
    } else {
        Err(Error::SizeOverflow)
    }
}

/// The code units that bytes make are the ones whose bytes they are.
pub proof fn lemma_unit_bytes_read_back(units: Seq<u16>)
    ensures
        units_at(unit_bytes(units), 0, units.len()) == units,
{
    let bytes = unit_bytes(units);
    let back = units_at(bytes, 0, units.len());
    assert forall|k: int| 0 <= k < units.len() implies back[k] == units[k] by {
        assert(bytes[2 * k] == unit_byte(units[k], 0));
        assert(bytes[2 * k + 1] == unit_byte(units[k], 1));
    }
    assert(back =~= units);
}

/// The code units at an address are those of the bytes that stand there.
pub proof fn lemma_units_of_range(bytes: Seq<u8>, at: int, count: nat)
    requires
        0 <= at,
        at + 2 * count <= bytes.len(),
    ensures
        units_at(bytes, at, count) == units_at(bytes.subrange(at, at + 2 * count), 0, count),
{
    let part = bytes.subrange(at, at + 2 * count);
    let here = units_at(bytes, at, count);
    let there = units_at(part, 0, count);
    assert forall|k: int| 0 <= k < count implies here[k] == there[k] by {
        assert(part[2 * k] == bytes[at + 2 * k]);
        assert(part[2 * k + 1] == bytes[at + 2 * k + 1]);
    }
    assert(here =~= there);
}

/// What was stored at a handle is what the memory then holds there, and the
/// header in front of it is as it was.
pub proof fn lemma_stored_holds(bytes: Seq<u8>, handle: u32, units: Seq<u16>)
    requires
        stored(bytes, handle, units) is Ok,
    ensures
        holds_units(stored(bytes, handle, units)->Ok_0, handle, units),
        stored(bytes, handle, units)->Ok_0.len() == bytes.len(),
        recorded_size(stored(bytes, handle, units)->Ok_0, handle) == recorded_size(bytes, handle),
{
    let data = unit_bytes(units);
    let after = with_bytes(bytes, handle as int, data);
    lemma_with_bytes(bytes, handle as int, data);
    lemma_units_of_range(after, handle as int, units.len());
    lemma_unit_bytes_read_back(units);
    lemma_header_kept(bytes, after, handle);
}

/// A text whose code units a memory holds at a handle, under a header that
/// records their size, is the text that is read there.
pub proof fn lemma_read_back(bytes: Seq<u8>, handle: u32, text: Seq<char>)
    requires
        holds_units(bytes, handle, encode(text)),
        recorded_size(bytes, handle) == Ok::<u32, Error>(encoded_size(text) as u32),
        encoded_size(text) <= u32::MAX,
    ensures
        text_at(bytes, handle) == Ok::<Seq<char>, Error>(text),
{
    lemma_decode_encode(text);
}

/// A text stored at a handle whose header records its encoded size is read
/// back as it was: storing, then reading, loses nothing.
pub proof fn lemma_round_trip(bytes: Seq<u8>, handle: u32, text: Seq<char>)
    requires
        stored(bytes, handle, encode(text)) is Ok,
        recorded_size(bytes, handle) == Ok::<u32, Error>(encoded_size(text) as u32),
        encoded_size(text) <= u32::MAX,
    ensures
        text_at(stored(bytes, handle, encode(text))->Ok_0, handle) == Ok::<Seq<char>, Error>(
            text,
        ),
{
    lemma_stored_holds(bytes, handle, encode(text));
    lemma_read_back(stored(bytes, handle, encode(text))->Ok_0, handle, text);
}

/// Storing the text that well-formed code units decode to, where they stand,
/// leaves the memory as it was: decoding and encoding again gives the same
/// bytes.
pub proof fn lemma_store_what_was_read(bytes: Seq<u8>, handle: u32, count: nat)
    requires
        reachable(bytes, handle, 2 * count),
        well_formed(units_at(bytes, handle as int, count)),
    ensures
        stored(bytes, handle, encode(decode_lossy(units_at(bytes, handle as int, count))))
            == Ok::<Seq<u8>, Error>(bytes),
{
    let units = units_at(bytes, handle as int, count);
    lemma_encode_decode(units);
    let after = with_bytes(bytes, handle as int, unit_bytes(units));
    assert forall|i: int| 0 <= i < bytes.len() implies after[i] == bytes[i] by {
        if handle <= i < handle + 2 * count {
            let k = (i - handle) / 2;
            assert(units[k] == unit_at(bytes, handle + 2 * k));
            assert(after[i] == unit_byte(units[k], (i - handle) % 2));
        }
    }
    assert(after =~= bytes);
}

/// No handle below the header size can be read, whatever the memory holds.
pub proof fn lemma_low_handle_unreadable(bytes: Seq<u8>, handle: u32)
    requires
        handle < HEADER_SIZE,
    ensures
        text_at(bytes, handle) == Err::<Seq<char>, Error>(Error::InvalidOffset),
{
}

/// The bytes of code units, each low byte first.
pub fn bytes_of(units: &Vec<u16>) -> (bytes: Vec<u8>)
    ensures
        bytes@ == unit_bytes(units@),
{
    let mut bytes: Vec<u8> = Vec::new();
    let mut at: usize = 0;
    while at < units.len()
        invariant
            at <= units.len(),
            bytes@ == unit_bytes(units@.take(at as int)),
        decreases units.len() - at,
    {
        let unit: u16 = units[at];
        bytes.push((unit % 0x100) as u8);
        bytes.push((unit / 0x100) as u8);
        at = at + 1;
        assert(bytes@ =~= unit_bytes(units@.take(at as int)));
    }
    assert(units@.take(at as int) =~= units@);
    bytes
}

/// The code units that bytes make, each low byte first. A last byte without
/// a second one makes none.
pub fn units_of(bytes: &Vec<u8>) -> (units: Vec<u16>)
    ensures
        units@ == units_at(bytes@, 0, bytes@.len() / 2),
{
    let count: usize = bytes.len() / 2;
    let mut units: Vec<u16> = Vec::new();
    let mut at: usize = 0;
    while at < count
        invariant
            at <= count,
            count == bytes@.len() / 2,
            units@ == units_at(bytes@, 0, at as nat),
        decreases count - at,
    {
        assert(2 * at + 1 < bytes.len());
        let unit: u16 = bytes[2 * at] as u16 + 0x100 * (bytes[2 * at + 1] as u16);
        units.push(unit);
        at = at + 1;
        assert(units@ =~= units_at(bytes@, 0, at as nat));
    }
    units
}

/// The size by which the allocator is asked for a number of code units.
pub fn request_size(count: usize) -> (size: Result<i32, Error>)
    ensures
        size == size_argument(count as nat),
{
    if count > 0x3FFF_FFFF {
        Err(Error::SizeOverflow)
    } else {
        Ok(2 * (count as i32))
    }
}

/// Reads the byte length that the memory records for a string's handle.
pub fn size(offset: u32, guest: &Guest<'_>, memory: &Memory) -> (size: Result<u32, Error>)
    ensures
        size == if memory_store(*memory) == store_id(guest.store) {
            recorded_size(memory_bytes(guest.store, *memory), offset)
        } else {
            Err(Error::WrongStore)
        },
{
    size_of(offset, guest, memory)
}

/// Stores code units from a handle on. Either all of them are stored or, where
/// they do not fit, none.
pub(crate) fn store_units(
    offset: u32,
    units: &Vec<u16>,
    guest: &mut Guest<'_>,
    memory: &Memory,
) -> (done: Result<(), Error>)
    requires
        memory_store(*memory) == store_id(old(guest).store),
    ensures
        store_id(final(guest).store) == store_id(old(guest).store),
        match stored(memory_bytes(old(guest).store, *memory), offset, units@) {
            Ok(bytes) => {
                &&& done is Ok
                &&& memory_bytes(final(guest).store, *memory) == bytes
                &&& final(guest).events@ == old(guest).events@.push(
                    (Event::Stored {
                        memory: *memory,
                        offset: offset as int,
                        bytes: unit_bytes(units@),
                        holding: bytes,
                    }),
                )
            },
            Err(error) => done == Err::<(), Error>(error) && *final(guest) == *old(guest),
        },
{
    let len: u64 = byte_len(&guest.store, memory);
    let start: u64 = offset as u64;
    if start > len || units.len() as u64 > (len - start) / 2 {
        return Err(Error::OutOfBounds);
    }
    let bytes = bytes_of(units);
    let done: bool = guest.put(memory, start, bytes.as_slice());
    assert(done);
    Ok(())
}

/// Stores a string at a handle as UTF-16. Either all of it is stored or, where
/// it does not fit or the memory is of another store, nothing. The guest is
/// not called.
pub fn write_str(
    offset: u32,
    value: &str,
    guest: &mut Guest<'_>,
    memory: &Memory,
) -> (done: Result<(), Error>)
    ensures
        store_id(final(guest).store) == store_id(old(guest).store),
        memory_store(*memory) != store_id(old(guest).store) ==> done == Err::<(), Error>(
            Error::WrongStore,
        ) && *final(guest) == *old(guest),
        memory_store(*memory) == store_id(old(guest).store) ==> match stored(
            memory_bytes(old(guest).store, *memory),
            offset,
            encode(value@),
        ) {
            Ok(bytes) => {
                &&& done is Ok
                &&& memory_bytes(final(guest).store, *memory) == bytes
                &&& final(guest).events@ == old(guest).events@.push(
                    (Event::Stored {
                        memory: *memory,
                        offset: offset as int,
                        bytes: unit_bytes(encode(value@)),
                        holding: bytes,
                    }),
                )
            },
            Err(error) => done == Err::<(), Error>(error) && *final(guest) == *old(guest),
        },
{
    if !memory_is_from(&guest.store, memory) {
        return Err(Error::WrongStore);
    }
    let units = encode_utf16(value);
    store_units(offset, &units, guest, memory)
}

/// The handle in what an allocation gave, or the error.
pub open spec fn handle_of(ptr: Result<Box<StringPtr>, Error>) -> Result<u32, Error> {
    match ptr {
        Ok(p) => Ok((*p)@),
        Err(error) => Err(error),
    }
}

/// Stores code units at a handle that the guest has just handed out, then pins
/// the handle: `pin` is called with it. Where the units do not fit, nothing is
/// stored and nothing pinned. Where the guest has no `pin`, the memory is left
/// as the storing made it. Bindings of another store are not touched.
pub fn place(handle: u32, units: &Vec<u16>, guest: &mut Guest<'_>, env: &Env) -> (ptr: Result<
    Box<StringPtr>,
    Error,
>)
    ensures
        store_id(final(guest).store) == store_id(old(guest).store),
        !env.lives_in(*old(guest)) ==> ptr == Err::<Box<StringPtr>, Error>(Error::WrongStore)
            && *final(guest) == *old(guest),
        env.lives_in(*old(guest)) ==> match stored(env.bytes(*old(guest)), handle, units@) {
            Err(error) => ptr == Err::<Box<StringPtr>, Error>(error)
                && *final(guest) == *old(guest),
            Ok(bytes) => {
                &&& final(guest).events@ == old(guest).events@ + env.storing(
                    handle,
                    unit_bytes(units@),
                    bytes,
                ) + call_of(
                    env.fn_pin,
                    seq![handle_bits(handle)],
                    answer_at(final(guest).events@, old(guest).events@.len() as int + 1),
                )
                &&& handle_of(ptr) == match outcome(
                    env.fn_pin,
                    answer_at(final(guest).events@, old(guest).events@.len() as int + 1),
                ) {
                    Ok(_) => Ok::<u32, Error>(handle),
                    Err(error) => Err::<u32, Error>(error),
                }
                &&& env.fn_pin is None ==> env.bytes(*final(guest)) == bytes
            },
        },
{
    if !env.serves(guest) {
        return Err(Error::WrongStore);
    }
    let ghost before = guest.events@;
    match store_units(handle, units, guest, &env.memory) {
        Ok(()) => {
            let ghost middle = guest.events@;
            assert(middle =~= before + env.storing(
                handle,
                unit_bytes(units@),
                env.bytes(*guest),
            ));
            let done = env.pin(guest, handle);
            proof {
                assert(middle.len() == before.len() + 1);
            }
            match done {
                Ok(()) => Ok(Box::new(StringPtr(handle))),
                Err(error) => Err(error),
            }
        },
        Err(error) => Err(error),
    }
}

impl View for StringPtr {
    type V = u32;

    closed spec fn view(&self) -> u32 {
        self.0
    }
}

impl StringPtr {
    /// The handle at a byte offset.
    pub fn new(offset: u32) -> (ptr: Self)
        ensures
            ptr@ == offset,
    {
        StringPtr(offset)
    }

    /// The byte offset of the first code unit.
    pub fn offset(&self) -> (offset: u32)
        ensures
            offset == self@,
    {
        self.0
    }
}

impl Read<String> for StringPtr {
    /// Reads the string at the handle: as many code units as half the recorded
    /// size, decoded with U+FFFD for each unpaired surrogate, which is meant:
    /// the guest's strings may hold any code units.
    fn read(&self, guest: &Guest<'_>, memory: &Memory) -> (text: Result<String, Error>)
        ensures
            memory_store(*memory) != store_id(guest.store) ==> text == Err::<String, Error>(
                Error::WrongStore,
            ),
            memory_store(*memory) == store_id(guest.store) ==> match text {
                Ok(s) => text_at(memory_bytes(guest.store, *memory), self@) == Ok::<
                    Seq<char>,
                    Error,
                >(s@),
                Err(error) => text_at(memory_bytes(guest.store, *memory), self@) == Err::<
                    Seq<char>,
                    Error,
                >(error),
            },
    {
        let store = &guest.store;
        if !memory_is_from(store, memory) {
            return Err(Error::WrongStore);
        }
        let size: u32 = match read_size(self.0, store, memory) {
            Ok(size) => size,
            Err(error) => {
                return Err(error);
            },
        };
        let count: u32 = size / 2;
        if self.0 as u64 + 2 * (count as u64) > byte_len(store, memory) {
            return Err(Error::MemoryFault);
        }
        match load_bytes(store, memory, self.0 as u64, 2 * (count as usize)) {
            Some(bytes) => {
                let units = units_of(&bytes);
                proof {
                    lemma_units_of_range(
                        memory_bytes(*store, *memory),
                        self.0 as int,
                        count as nat,
                    );
                }
                Ok(decode_utf16_lossy(&units))
            },
            None => Err(Error::MemoryFault),
        }
    }

    /// Reads the byte length that the memory records for the handle.
    fn size(&self, guest: &Guest<'_>, memory: &Memory) -> (size: Result<u32, Error>)
        ensures
            size == if memory_store(*memory) == store_id(guest.store) {
                recorded_size(memory_bytes(guest.store, *memory), self@)
            } else {
                Err(Error::WrongStore)
            },
    {
        size(self.0, guest, memory)
    }
}

/// What an allocation owes once it is not refused: the events are those of
/// the allocation, read with what the guest answered; the result is the handle
/// that `new` answered, or what went wrong first; where nothing was stored at
/// the handle, the value does not fit in the memory as the guest left it;
/// where it was stored, the memory then held it at the handle, and holds it
/// still where the guest has no `pin` to call after it.
pub open spec fn allocated(
    env: &Env,
    size: i32,
    content: Seq<u16>,
    before: Seq<Event>,
    at: int,
    after: Guest<'_>,
    ptr: Result<Box<StringPtr>, Error>,
) -> bool {
    let bytes = unit_bytes(content);
    let events = after.events@;
    &&& events == before + env.allocation_events(size, STRING_CLASS, bytes, events, at)
    &&& handle_of(ptr) == env.allocation_result(events, at)
    &&& reply(answer_at(events, at)) matches Ok(handle) ==> if stored_at(events, at + 1) {
        &&& holds_units(holding_at(events, at + 1), handle, content)
        &&& env.fn_pin is None ==> env.bytes(after) == holding_at(events, at + 1)
    } else {
        !reachable(env.bytes(after), handle, bytes.len())
    }
}

/// What a write owes where the sizes differ and the allocation is not
/// refused: the old handle is released and, where that went well, the value is
/// allocated anew, in this order.
pub open spec fn reallocated(
    env: &Env,
    handle: u32,
    size: i32,
    content: Seq<u16>,
    before: Seq<Event>,
    after: Guest<'_>,
    ptr: Result<Box<StringPtr>, Error>,
) -> bool {
    let at = before.len() as int;
    let released = env.release_events(handle, after.events@, at);
    match env.release_result(handle, after.events@, at) {
        Err(error) => after.events@ == before + released && ptr == Err::<Box<StringPtr>, Error>(
            error,
        ),
        Ok(_) => allocated(env, size, content, before + released, at + released.len(), after, ptr),
    }
}

/// What was allocated reads back: where an allocation gave a handle and the
/// header at it records the size of the value, the memory as the storing left
/// it reads as the value; and so does the guest's memory after the allocation
/// where the guest has no `pin` that runs after the storing.
pub proof fn lemma_allocated_reads_back(
    env: &Env,
    size: i32,
    text: Seq<char>,
    before: Seq<Event>,
    at: int,
    after: Guest<'_>,
    ptr: Result<Box<StringPtr>, Error>,
)
    requires
        allocated(env, size, encode(text), before, at, after, ptr),
        ptr is Ok,
        encoded_size(text) <= u32::MAX,
        recorded_size(holding_at(after.events@, at + 1), (*ptr->Ok_0)@) == Ok::<u32, Error>(
            encoded_size(text) as u32,
        ),
    ensures
        text_at(holding_at(after.events@, at + 1), (*ptr->Ok_0)@) == Ok::<Seq<char>, Error>(text),
        env.fn_pin is None ==> text_at(env.bytes(after), (*ptr->Ok_0)@)
            == Ok::<Seq<char>, Error>(text),
{
    lemma_read_back(holding_at(after.events@, at + 1), (*ptr->Ok_0)@, text);
}

impl Write<String> for StringPtr {
    /// Asks the guest for twice as many bytes as the text has code units,
    /// stores the code units at the handle that it answers with, and pins the
    /// handle: `new` with the size and the class of strings, then `pin` with
    /// the handle.
    ///
    /// Where the allocation is refused, nothing is called and the guest stays
    /// as it is. Past that the guest decides; where it has no `pin`, the memory
    /// holds the text at the new handle afterwards.
    fn allocate(value: &String, guest: &mut Guest<'_>, env: &Env) -> (ptr: Result<
        Box<StringPtr>,
        Error,
    >)
        ensures
            store_id(final(guest).store) == store_id(old(guest).store),
            match refusal(env, *old(guest), size_argument(encode(value@).len())) {
                Some(error) => ptr == Err::<Box<StringPtr>, Error>(error)
                    && *final(guest) == *old(guest),
                None => allocated(
                    env,
                    size_argument(encode(value@).len())->Ok_0,
                    encode(value@),
                    old(guest).events@,
                    old(guest).events@.len() as int,
                    *final(guest),
                    ptr,
                ),
            },
    {
        if !env.serves(guest) {
            return Err(Error::WrongStore);
        }
        if !env.has(Export::New) {
            return Err(Error::AllocatorUnavailable(Export::New));
        }
        let units = encode_utf16(value.as_str());
        let size: i32 = match request_size(units.len()) {
            Ok(size) => size,
            Err(error) => {
                return Err(error);
            },
        };
        let ghost before = guest.events@;
        let ghost at = before.len() as int;
        match env.reserve(guest, size, STRING_CLASS) {
            Ok(handle) => {
                let ghost middle = guest.events@;
                proof {
                    assert(middle.len() == at + 1);
                    if stored(env.bytes(*guest), handle, units@) is Ok {
                        lemma_stored_holds(env.bytes(*guest), handle, units@);
                    }
                }
                let ptr = place(handle, &units, guest, env);
                proof {
                    let after = guest.events@;
                    assert(after[at] == middle[at]);
                    assert(answer_at(after, at) == answer_at(middle, at));
                    assert(reply(answer_at(after, at)) == Ok::<u32, Error>(handle));
                    assert(unit_bytes(units@).len() == 2 * units@.len());
                    if after.len() == at + 1 {
                        assert(after =~= before + env.allocation_events(
                            size,
                            STRING_CLASS,
                            unit_bytes(units@),
                            after,
                            at,
                        ));
                    } else {
                        assert(after[at + 1] is Stored);
                        assert(after =~= before + env.allocation_events(
                            size,
                            STRING_CLASS,
                            unit_bytes(units@),
                            after,
                            at,
                        ));
                    }
                }
                ptr
            },
            Err(error) => {
                proof {
                    let after = guest.events@;
                    assert(after =~= before + env.allocation_events(
                        size,
                        STRING_CLASS,
                        unit_bytes(units@),
                        after,
                        at,
                    ));
                }
                Err(error)
            },
        }
    }

    /// Stores the text at the handle where its encoded size is the recorded
    /// one: the guest is not called, the handle stays, and the memory then
    /// reads as the text. Where the sizes differ, the handle is released and
    /// the text is allocated anew, in this order: `unpin`, `collect`, `new`,
    /// `pin`. The handle that is returned replaces this one.
    fn write(&mut self, value: &String, guest: &mut Guest<'_>, env: &Env) -> (ptr: Result<
        Box<StringPtr>,
        Error,
    >)
        ensures
            *final(self) == *old(self),
            store_id(final(guest).store) == store_id(old(guest).store),
            !env.lives_in(*old(guest)) ==> ptr == Err::<Box<StringPtr>, Error>(Error::WrongStore)
                && *final(guest) == *old(guest),
            env.lives_in(*old(guest)) ==> match recorded_size(
                env.bytes(*old(guest)),
                old(self)@,
            ) {
                Err(error) => ptr == Err::<Box<StringPtr>, Error>(error)
                    && *final(guest) == *old(guest),
                Ok(size) => if size == encoded_size(value@) {
                    match stored(env.bytes(*old(guest)), old(self)@, encode(value@)) {
                        Ok(bytes) => {
                            &&& final(guest).events@ == old(guest).events@ + env.storing(
                                old(self)@,
                                unit_bytes(encode(value@)),
                                bytes,
                            )
                            &&& ptr matches Ok(p)
                            &&& *p == *old(self)
                            &&& env.bytes(*final(guest)) == bytes
                            &&& text_at(bytes, old(self)@) == Ok::<Seq<char>, Error>(value@)
                        },
                        Err(error) => ptr == Err::<Box<StringPtr>, Error>(error) && *final(guest)
                            == *old(guest),
                    }
                } else {
                    match refusal(env, *old(guest), size_argument(encode(value@).len())) {
                        Some(error) => ptr == Err::<Box<StringPtr>, Error>(error)
                            && *final(guest) == *old(guest),
                        None => reallocated(
                            env,
                            old(self)@,
                            size_argument(encode(value@).len())->Ok_0,
                            encode(value@),
                            old(guest).events@,
                            *final(guest),
                            ptr,
                        ),
                    }
                },
            },
    {
        if !env.serves(guest) {
            return Err(Error::WrongStore);
        }
        let recorded: u32 = match read_size(self.0, &guest.store, &env.memory) {
            Ok(size) => size,
            Err(error) => {
                return Err(error);
            },
        };
        let units = encode_utf16(value.as_str());
        if units.len() <= 0x7FFF_FFFF && recorded as usize == 2 * units.len() {
            proof {
                if stored(env.bytes(*guest), self.0, units@) is Ok {
                    lemma_round_trip(env.bytes(*guest), self.0, value@);
                }
            }
            let ghost before = guest.events@;
            match store_units(self.0, &units, guest, &env.memory) {
                Ok(()) => {
                    assert(guest.events@ =~= before + env.storing(
                        self.0,
                        unit_bytes(units@),
                        env.bytes(*guest),
                    ));
                    Ok(Box::new(*self))
                },
                Err(error) => Err(error),
            }
        } else {
            if !env.has(Export::New) {
                return Err(Error::AllocatorUnavailable(Export::New));
            }
            if request_size(units.len()).is_err() {
                return Err(Error::SizeOverflow);
            }
            let ghost before = guest.events@;
            let ghost at = before.len() as int;
            match env.release(guest, self.0) {
                Ok(()) => {
                    let ghost middle = guest.events@;
                    let ptr = Self::allocate(value, guest, env);
                    proof {
                        let after = guest.events@;
                        let released = env.release_events(self.0, middle, at);
                        assert(middle.len() == at + released.len());
                        assert forall|i: int| 0 <= i < middle.len() implies after[i]
                            == middle[i] by {
                        }
                        lemma_release_kept(env, self.0, middle, after, at);
                        assert(after =~= before + released + env.allocation_events(
                            size_argument(encode(value@).len())->Ok_0,
                            STRING_CLASS,
                            unit_bytes(encode(value@)),
                            after,
                            at + released.len(),
                        ));
                    }
                    ptr
                },
                Err(error) => Err(error),
            }
        }
    }

    /// Gives up the host's hold on the string: `unpin` is called with the
    /// handle and, where that went well, `collect`. To be called once for an
    /// allocation that was pinned. Where the guest has neither function,
    /// nothing is called and the guest stays as it is.
    fn free(self, guest: &mut Guest<'_>, env: &Env) -> (done: Result<(), Error>)
        ensures
            store_id(final(guest).store) == store_id(old(guest).store),
            !env.lives_in(*old(guest)) ==> done == Err::<(), Error>(Error::WrongStore)
                && *final(guest) == *old(guest),
            env.lives_in(*old(guest)) ==> {
                &&& final(guest).events@ == old(guest).events@ + env.release_events(
                    self@,
                    final(guest).events@,
                    old(guest).events@.len() as int,
                )
                &&& done == env.release_result(
                    self@,
                    final(guest).events@,
                    old(guest).events@.len() as int,
                )
                &&& env.fn_unpin is None && env.fn_collect is None ==> *final(guest) == *old(guest)
            },
    {
        env.release(guest, self.0)
    }
}

} // verus!
