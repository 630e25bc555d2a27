//! The runtime's side of the boundary: the store that holds a guest's state, the
//! guest's linear memory, its exported functions, and the few calls into the
//! runtime that the marshalling layer makes.
//!
//! Everything in this module that carries `external_body` is believed, not proved.
//! The rest of the crate is verified against these contracts. `Guest` is the
//! value that the library works on: the store, and a log of everything that
//! the library did to the guest, so that contracts can say which functions
//! were called, with what, what they answered, what was stored, and in which
//! order. Only `Guest::call` and `Guest::put` write the log, each where it
//! makes the call or the store.
use vstd::prelude::*;
use wasmer::{ExportError, Function, Instance, Memory, RuntimeError, StoreMut, Value};

verus! {

/// A mutable handle on the store that holds the guest's state.
#[verifier::external_type_specification]
#[verifier::external_body]
pub struct ExStoreMut<'a>(StoreMut<'a>);

/// A linear memory, as the runtime hands it out: a reference into a store.
#[verifier::external_type_specification]
#[verifier::external_body]
pub struct ExMemory(Memory);

/// A function that can be called through the runtime: a reference into a store.
#[verifier::external_type_specification]
#[verifier::external_body]
pub struct ExFunction(Function);

/// An instantiated guest module.
#[verifier::external_type_specification]
#[verifier::external_body]
pub struct ExInstance(Instance);

/// What the runtime reports when a call into the guest fails.
#[verifier::external_type_specification]
#[verifier::external_body]
pub struct ExRuntimeError(RuntimeError);

/// What the runtime reports when an export is missing or of another kind.
#[verifier::external_type_specification]
#[verifier::external_body]
pub struct ExExportError(ExportError);

/// The bytes that a store holds for a linear memory, from address zero up to
/// the memory's current size.
///
/// The library reads them through `&StoreMut` and changes them through
/// `&mut StoreMut` only, so that a value of type `StoreMut` stands for one state
/// of the guest. A memory that another thread writes to at the same time is
/// outside this model.
pub uninterp spec fn memory_bytes(store: StoreMut<'_>, memory: Memory) -> Seq<u8>;

/// The identity of a store, which the runtime gives it when it is made and
/// which stays while its state changes.
pub uninterp spec fn store_id(store: StoreMut<'_>) -> int;

/// The identity of the store that a memory lives in, which the memory carries.
pub uninterp spec fn memory_store(memory: Memory) -> int;

/// The identity of the store that a function lives in, which the function
/// carries.
pub uninterp spec fn function_store(function: Function) -> int;

/// The function that an instance exports under a name, if it exports one.
pub uninterp spec fn exported_function(instance: Instance, name: Seq<char>) -> Option<Function>;

/// The memory that an instance exports under a name, if it exports one.
pub uninterp spec fn exported_memory(instance: Instance, name: Seq<char>) -> Option<Memory>;

/// Something that the library did to a guest.
pub enum Event {
    /// A function of the guest was called with these words, and this came
    /// back: the results, or nothing where the call failed.
    Called { function: Function, arguments: Seq<i32>, answer: Option<Seq<Option<i32>>> },
    /// These bytes were stored in a memory of the guest, from an address on,
    /// and the memory then held this.
    Stored { memory: Memory, offset: int, bytes: Seq<u8>, holding: Seq<u8> },
}

/// What was done to a guest, the first thing first. Only this module writes
/// it: an entry is made where the call or the store is made, and nowhere else.
pub struct Log {
    entries: Ghost<Seq<Event>>,
}

impl View for Log {
    type V = Seq<Event>;

    closed spec fn view(&self) -> Seq<Event> {
        self.entries@
    }
}

/// A guest at work: the store that holds its state, and what was done to it
/// through this value.
///
/// The events are kept for the contracts only; nothing of them is left in the
/// compiled code.
pub struct Guest<'a> {
    pub store: StoreMut<'a>,
    pub events: Log,
}

/// What a call gave, as an event keeps it.
pub open spec fn answer_of(results: Result<Vec<Option<i32>>, RuntimeError>) -> Option<
    Seq<Option<i32>>,
> {
    match results {
        Ok(values) => Some(values@),
        Err(_) => None,
    }
}

impl<'a> Guest<'a> {
    /// A guest to which nothing was done yet.
    pub fn new(store: StoreMut<'a>) -> (guest: Guest<'a>)
        ensures
            guest.store == store,
            guest.events@ == Seq::<Event>::empty(),
    {
        Guest { store, events: Log { entries: Ghost(Seq::empty()) } }
    }

    /// Calls a function of the guest and notes the call with what came back.
    pub(crate) fn call(&mut self, function: &Function, arguments: &Vec<i32>) -> (results: Result<
        Vec<Option<i32>>,
        RuntimeError,
    >)
        requires
            function_store(*function) == store_id(old(self).store),
        ensures
            store_id(final(self).store) == store_id(old(self).store),
            final(self).events@ == old(self).events@.push(
                (Event::Called {
                    function: *function,
                    arguments: arguments@,
                    answer: answer_of(results),
                }),
            ),
    {
        let results = call_guest(&mut self.store, function, arguments);
        self.events.entries = Ghost(
            self.events.entries@.push(
                Event::Called {
                    function: *function,
                    arguments: arguments@,
                    answer: answer_of(results),
                },
            ),
        );
        results
    }

    /// Stores bytes in a memory of the guest and notes it. Where the bytes do
    /// not all lie within the memory, nothing is stored and nothing noted.
    pub(crate) fn put(&mut self, memory: &Memory, offset: u64, data: &[u8]) -> (stored: bool)
        requires
            memory_store(*memory) == store_id(old(self).store),
        ensures
            store_id(final(self).store) == store_id(old(self).store),
            stored == (offset + data@.len() <= memory_bytes(old(self).store, *memory).len()),
            stored ==> memory_bytes(final(self).store, *memory) == with_bytes(
                memory_bytes(old(self).store, *memory),
                offset as int,
                data@,
            ) && final(self).events@ == old(self).events@.push(
                (Event::Stored {
                    memory: *memory,
                    offset: offset as int,
                    bytes: data@,
                    holding: memory_bytes(final(self).store, *memory),
                }),
            ),
            !stored ==> *final(self) == *old(self),
    {
        let stored = store_bytes(&mut self.store, memory, offset, data);
        if stored {
            self.events.entries = Ghost(
                self.events.entries@.push(
                    Event::Stored {
                        memory: *memory,
                        offset: offset as int,
                        bytes: data@,
                        holding: memory_bytes(self.store, *memory),
                    },
                ),
            );
        }
        stored
    }
}

/// `Memory::is_from_store`: whether the memory lives in this store, which the
/// runtime decides by the two identities.
#[verifier::external_body]
pub(crate) fn memory_is_from(store: &StoreMut<'_>, memory: &Memory) -> (same: bool)
    ensures
        same == (memory_store(*memory) == store_id(*store)),
{
    memory.is_from_store(store)
}

/// `Function::is_from_store`: whether the function lives in this store, which
/// the runtime decides by the two identities.
#[verifier::external_body]
pub(crate) fn function_is_from(store: &StoreMut<'_>, function: &Function) -> (same: bool)
    ensures
        same == (function_store(*function) == store_id(*store)),
{
    function.is_from_store(store)
}

/// `Memory::view`, then `MemoryView::data_size`: the current size of the linear
/// memory, in bytes. The runtime panics on a memory of another store.
#[verifier::external_body]
pub(crate) fn byte_len(store: &StoreMut<'_>, memory: &Memory) -> (len: u64)
    requires
        memory_store(*memory) == store_id(*store),
    ensures
        len == memory_bytes(*store, *memory).len(),
{
    memory.view(store).data_size()
}

/// `Memory::view`, then `MemoryView::read` into a buffer of `count` bytes: the
/// bytes from `offset` on. The buffer is made before the runtime looks at the
/// bounds, so only bytes that lie within the memory are asked for. The runtime
/// panics on a memory of another store.
#[verifier::external_body]
pub(crate) fn load_bytes(
    store: &StoreMut<'_>,
    memory: &Memory,
    offset: u64,
    count: usize,
) -> (bytes: Option<Vec<u8>>)
    requires
        memory_store(*memory) == store_id(*store),
        offset + count <= memory_bytes(*store, *memory).len(),
    ensures
        bytes is Some,
        bytes matches Some(v) ==> v@ == memory_bytes(*store, *memory).subrange(
            offset as int,
            offset + count,
        ),
{
    let mut buffer = vec![0u8; count];
    memory.view(store).read(offset, &mut buffer).ok().map(|_| buffer)
}

/// `Memory::view`, then `MemoryView::write`: stores the bytes from `offset` on
/// and says whether it did. Where they do not all lie within the memory,
/// nothing is stored and the store is as it was. The size of the memory stays.
/// The runtime panics on a memory of another store.
#[verifier::external_body]
pub(crate) fn store_bytes(
    store: &mut StoreMut<'_>,
    memory: &Memory,
    offset: u64,
    data: &[u8],
) -> (stored: bool)
    requires
        memory_store(*memory) == store_id(*old(store)),
    ensures
        store_id(*final(store)) == store_id(*old(store)),
        stored == (offset + data@.len() <= memory_bytes(*old(store), *memory).len()),
        stored ==> memory_bytes(*final(store), *memory) == with_bytes(
            memory_bytes(*old(store), *memory),
            offset as int,
            data@,
        ),
        !stored ==> *final(store) == *old(store),
{
    memory.view(store).write(offset, data).is_ok()
}

/// A memory in which the bytes from address `at` on were replaced.
pub open spec fn with_bytes(bytes: Seq<u8>, at: int, data: Seq<u8>) -> Seq<u8> {
    Seq::new(
        bytes.len(),
        |i: int|
            if at <= i < at + data.len() {
                data[i - at]
            } else {
                bytes[i]
            },
    )
}

/// Replacing bytes keeps the size of the memory and every byte outside the
/// range, and puts the new bytes in the range.
pub proof fn lemma_with_bytes(bytes: Seq<u8>, at: int, data: Seq<u8>)
    requires
        0 <= at,
        at + data.len() <= bytes.len(),
    ensures
        with_bytes(bytes, at, data).len() == bytes.len(),
        with_bytes(bytes, at, data).subrange(at, at + data.len()) == data,
        forall|i: int|
            0 <= i < bytes.len() && !(at <= i < at + data.len()) ==> with_bytes(bytes, at, data)[i]
                == bytes[i],
{
    let after = with_bytes(bytes, at, data);
    assert(after.subrange(at, at + data.len()) =~= data);
}

/// `Function::call` with 32-bit integer arguments: what the function returned,
/// each result as a 32-bit integer where it is one, or the runtime's error.
///
/// The guest runs while the call lasts and may write to its memory and grow it:
/// of the store afterwards only its identity is known, and nothing of the
/// results. The runtime panics on a function of another store. The guest, and
/// the host functions that it imports, are taken to return.
#[verifier::external_body]
pub(crate) fn call_guest(
    store: &mut StoreMut<'_>,
    function: &Function,
    arguments: &Vec<i32>,
) -> (results: Result<Vec<Option<i32>>, RuntimeError>)
    requires
        function_store(*function) == store_id(*old(store)),
    ensures
        store_id(*final(store)) == store_id(*old(store)),
{
    let values: Vec<Value> = arguments.iter().map(|word| Value::I32(*word)).collect();
    let results = function.call(store, &values)?;
    Ok(results.iter().map(|value| value.i32()).collect())
}

/// `Exports::get_function` on the instance's exports: the export of that name,
/// where it is a function.
#[verifier::external_body]
pub(crate) fn export_function(instance: &Instance, name: &str) -> (function: Option<Function>)
    ensures
        function == exported_function(*instance, name@),
{
    instance.exports.get_function(name).ok().cloned()
}

/// `Exports::get_memory` on the instance's exports: the export of that name,
/// where it is a memory, else the runtime's error.
#[verifier::external_body]
pub(crate) fn export_memory(instance: &Instance, name: &str) -> (memory: Result<
    Memory,
    ExportError,
>)
    ensures
        match memory {
            Ok(m) => exported_memory(*instance, name@) == Some(m),
            Err(_) => exported_memory(*instance, name@) is None,
        },
{
    instance.exports.get_memory(name).cloned()
}

} // verus!
