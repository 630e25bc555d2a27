//! The guest's memory together with the allocator functions that it exports,
//! each of which may be missing, and the calls into them.
use crate::guest::{
    export_function, export_memory, exported_function, exported_memory, function_is_from,
    answer_of, function_store, memory_bytes, memory_is_from, memory_store, store_id, Event,
    Guest,
};
use crate::{Error, Export};
use vstd::prelude::*;
use wasmer::{Function, Instance, Memory, StoreMut};

verus! {

/// The name under which the guest exports its linear memory.
pub const MEMORY_NAME: &'static str = "memory";

/// A guest's linear memory and the allocator functions bound at instantiation.
pub struct Env {
    pub memory: Memory,
    pub fn_new: Option<Function>,
    pub fn_pin: Option<Function>,
    pub fn_unpin: Option<Function>,
    pub fn_collect: Option<Function>,
}

/// Whether a binding, where present, lives in a store.
pub open spec fn bound_in(function: Option<Function>, store: StoreMut<'_>) -> bool {
    function matches Some(f) ==> function_store(f) == store_id(store)
}

/// What a call answered, as the events have it at a place: nothing where the
/// call failed, or where no call stands at that place.
pub open spec fn answer_at(events: Seq<Event>, at: int) -> Option<Seq<Option<i32>>> {
    if 0 <= at < events.len() {
        match events[at] {
            Event::Called { answer, .. } => answer,
            Event::Stored { .. } => None,
        }
    } else {
        None
    }
}

/// Whether bytes were stored at a place of the events.
pub open spec fn stored_at(events: Seq<Event>, at: int) -> bool {
    0 <= at < events.len() && events[at] is Stored
}

/// What the memory held once bytes were stored, as the events have it at a
/// place.
pub open spec fn holding_at(events: Seq<Event>, at: int) -> Seq<u8> {
    if 0 <= at < events.len() {
        match events[at] {
            Event::Stored { holding, .. } => holding,
            Event::Called { .. } => Seq::empty(),
        }
    } else {
        Seq::empty()
    }
}

/// The call into a binding with the words given and what it answered, where
/// the guest has the binding: one call, or none.
pub open spec fn call_of(
    function: Option<Function>,
    arguments: Seq<i32>,
    answer: Option<Seq<Option<i32>>>,
) -> Seq<Event> {
    match function {
        Some(function) => seq![(Event::Called { function, arguments, answer })],
        None => Seq::empty(),
    }
}

/// How a call into a binding ended: well where the guest has no such binding
/// or the call answered, else with a failed call.
pub open spec fn outcome(function: Option<Function>, answer: Option<Seq<Option<i32>>>) -> Result<
    (),
    Error,
> {
    if function is None || answer is Some {
        Ok(())
    } else {
        Err(Error::CallFailed)
    }
}

/// The handle that `new` gave: read from its answer, where it answered.
pub open spec fn reply(answer: Option<Seq<Option<i32>>>) -> Result<u32, Error> {
    match answer {
        Some(results) => answered_handle(results),
        None => Err(Error::CallFailed),
    }
}

/// What an allocation fails with before the guest is asked, if with anything:
/// bindings of another store, a guest without `new`, or a value too long for
/// the size argument.
pub open spec fn refusal(env: &Env, guest: Guest<'_>, size: Result<i32, Error>) -> Option<Error> {
    if !env.lives_in(guest) {
        Some(Error::WrongStore)
    } else if env.fn_new is None {
        Some(Error::AllocatorUnavailable(Export::New))
    } else if size is Err {
        Some(Error::SizeOverflow)
    } else {
        None
    }
}

/// The handle that the guest's `new` answered with: its first result, which
/// must be a 32-bit integer that is not negative.
pub open spec fn answered_handle(results: Seq<Option<i32>>) -> Result<u32, Error> {
    if results.len() == 0 {
        Err(Error::CallFailed)
    } else {
        match results[0] {
            None => Err(Error::CallFailed),
            Some(word) => if word < 0 {
                Err(Error::InvalidOffset)
            } else {
                Ok(word as u32)
            },
        }
    }
}

/// Reads the new handle out of what the guest's `new` returned.
pub fn handle_from(results: &Vec<Option<i32>>) -> (handle: Result<u32, Error>)
    ensures
        handle == answered_handle(results@),
{
    if results.len() == 0 {
        return Err(Error::CallFailed);
    }
    match results[0] {
        None => Err(Error::CallFailed),
        Some(word) => if word < 0 {
            Err(Error::InvalidOffset)
        } else {
            Ok(word as u32)
        },
    }
}

/// A handle as the 32-bit word that is handed to the guest: the same bits.
pub open spec fn handle_bits(handle: u32) -> i32 {
    if handle < 0x8000_0000 {
        handle as i32
    } else {
        (handle - 0x1_0000_0000) as i32
    }
}

/// The word that stands for a handle in a call to the guest.
pub fn handle_word(handle: u32) -> (word: i32)
    ensures
        word == handle_bits(handle),
{
    if handle < 0x8000_0000 {
        handle as i32
    } else {
        let below: u32 = handle - 0x8000_0000;
        below as i32 - 0x4000_0000 - 0x4000_0000
    }
}

/// Events that come behind a release leave what the release did, and how it
/// ended, as they were.
pub proof fn lemma_release_kept(
    env: &Env,
    handle: u32,
    first: Seq<Event>,
    second: Seq<Event>,
    at: int,
)
    requires
        0 <= at,
        first.len() == at + env.release_events(handle, first, at).len(),
        first.len() <= second.len(),
        forall|i: int| 0 <= i < first.len() ==> second[i] == first[i],
    ensures
        env.release_events(handle, second, at) == env.release_events(handle, first, at),
        env.release_result(handle, second, at) == env.release_result(handle, first, at),
{
    let words = seq![handle_bits(handle)];
    let unpinned = call_of(env.fn_unpin, words, answer_at(first, at));
    if env.fn_unpin is Some {
        assert(second[at] == first[at]);
        assert(answer_at(second, at) == answer_at(first, at));
    }
    assert(call_of(env.fn_unpin, words, answer_at(second, at)) =~= unpinned);
    if outcome(env.fn_unpin, answer_at(first, at)) is Ok && env.fn_collect is Some {
        assert(second[at + unpinned.len()] == first[at + unpinned.len()]);
    }
}

/// Whether a binding, where present, lives in a store.
fn binding_is_from(store: &StoreMut<'_>, function: &Option<Function>) -> (same: bool)
    ensures
        same == bound_in(*function, *store),
{
    match function {
        Some(f) => function_is_from(store, f),
        None => true,
    }
}

/// Calls a binding, where the guest has it, with the words given.
fn call_binding(guest: &mut Guest<'_>, function: &Option<Function>, arguments: &Vec<i32>) -> (done:
    Result<(), Error>)
    requires
        bound_in(*function, old(guest).store),
    ensures
        store_id(final(guest).store) == store_id(old(guest).store),
        final(guest).events@ == old(guest).events@ + call_of(
            *function,
            arguments@,
            answer_at(final(guest).events@, old(guest).events@.len() as int),
        ),
        done == outcome(
            *function,
            answer_at(final(guest).events@, old(guest).events@.len() as int),
        ),
        *function is None ==> *final(guest) == *old(guest),
{
    let ghost before = guest.events@;
    match function {
        None => {
            assert(before + Seq::<Event>::empty() =~= before);
            Ok(())
        },
        Some(f) => {
            let results = guest.call(f, arguments);
            proof {
                let answer = answer_of(results);
                assert(guest.events@[before.len() as int] == (Event::Called {
                    function: *f,
                    arguments: arguments@,
                    answer,
                }));
                assert(guest.events@ =~= before + call_of(*function, arguments@, answer));
            }
            match results {
                Ok(_) => Ok(()),
                Err(_) => Err(Error::CallFailed),
            }
        },
    }
}

impl Env {
    /// The memory and every binding that is present live in the guest's store.
    pub open spec fn lives_in(&self, guest: Guest<'_>) -> bool {
        &&& memory_store(self.memory) == store_id(guest.store)
        &&& bound_in(self.fn_new, guest.store)
        &&& bound_in(self.fn_pin, guest.store)
        &&& bound_in(self.fn_unpin, guest.store)
        &&& bound_in(self.fn_collect, guest.store)
    }

    /// What the guest's memory holds.
    pub open spec fn bytes(&self, guest: Guest<'_>) -> Seq<u8> {
        memory_bytes(guest.store, self.memory)
    }

    /// The binding for one of the four functions.
    pub open spec fn binding(&self, export: Export) -> Option<Function> {
        match export {
            Export::New => self.fn_new,
            Export::Pin => self.fn_pin,
            Export::Unpin => self.fn_unpin,
            Export::Collect => self.fn_collect,
        }
    }

    /// That bytes were stored in the memory from a handle on, and what the
    /// memory then held.
    pub open spec fn storing(&self, handle: u32, bytes: Seq<u8>, holding: Seq<u8>) -> Seq<
        Event,
    > {
        seq![(Event::Stored { memory: self.memory, offset: handle as int, bytes, holding })]
    }

    /// What a release that begins at a place of the events does: `unpin` is
    /// called with the handle and, where that went well, `collect`. What the
    /// calls answered is read from the events.
    pub open spec fn release_events(&self, handle: u32, events: Seq<Event>, at: int) -> Seq<Event> {
        let unpinned = call_of(self.fn_unpin, seq![handle_bits(handle)], answer_at(events, at));
        if outcome(self.fn_unpin, answer_at(events, at)) is Ok {
            unpinned + call_of(
                self.fn_collect,
                Seq::empty(),
                answer_at(events, at + unpinned.len()),
            )
        } else {
            unpinned
        }
    }

    /// How a release that begins at a place of the events ends.
    pub open spec fn release_result(&self, handle: u32, events: Seq<Event>, at: int) -> Result<
        (),
        Error,
    > {
        let unpinned = call_of(self.fn_unpin, seq![handle_bits(handle)], answer_at(events, at));
        if outcome(self.fn_unpin, answer_at(events, at)) is Ok {
            outcome(self.fn_collect, answer_at(events, at + unpinned.len()))
        } else {
            Err(Error::CallFailed)
        }
    }

    /// What an allocation that begins at a place of the events does: `new` is
    /// called with the size and the class; where it answered with a handle and
    /// the bytes fit there, they are stored at it, and `pin` is called with it.
    pub open spec fn allocation_events(
        &self,
        size: i32,
        class_id: i32,
        bytes: Seq<u8>,
        events: Seq<Event>,
        at: int,
    ) -> Seq<Event> {
        let asked = call_of(self.fn_new, seq![size, class_id], answer_at(events, at));
        match reply(answer_at(events, at)) {
            Err(_) => asked,
            Ok(handle) => if stored_at(events, at + 1) {
                asked + self.storing(handle, bytes, holding_at(events, at + 1)) + call_of(
                    self.fn_pin,
                    seq![handle_bits(handle)],
                    answer_at(events, at + 2),
                )
            } else {
                asked
            },
        }
    }

    /// How an allocation that begins at a place of the events ends: with the
    /// handle that `new` answered, or with what went wrong first.
    pub open spec fn allocation_result(&self, events: Seq<Event>, at: int) -> Result<u32, Error> {
        match reply(answer_at(events, at)) {
            Err(error) => Err(error),
            Ok(handle) => if stored_at(events, at + 1) {
                match outcome(self.fn_pin, answer_at(events, at + 2)) {
                    Ok(_) => Ok(handle),
                    Err(error) => Err(error),
                }
            } else {
                Err(Error::OutOfBounds)
            },
        }
    }

    /// Binds a memory and whichever allocator functions the guest has.
    pub fn new(
        memory: Memory,
        fn_new: Option<Function>,
        fn_pin: Option<Function>,
        fn_unpin: Option<Function>,
        fn_collect: Option<Function>,
    ) -> (env: Env)
        ensures
            env.memory == memory,
            env.fn_new == fn_new,
            env.fn_pin == fn_pin,
            env.fn_unpin == fn_unpin,
            env.fn_collect == fn_collect,
    {
        Env { memory, fn_new, fn_pin, fn_unpin, fn_collect }
    }

    /// Resolves the memory and the four allocator functions by name from an
    /// instance's exports. The memory must be there; each function is bound
    /// where the instance exports it and left out where it does not.
    pub fn from_instance(instance: &Instance) -> (env: Result<Env, Error>)
        ensures
            match exported_memory(*instance, MEMORY_NAME@) {
                None => env == Err::<Env, Error>(Error::MemoryUnavailable),
                Some(memory) => env == Ok::<Env, Error>(
                    (Env {
                        memory,
                        fn_new: exported_function(*instance, "__new"@),
                        fn_pin: exported_function(*instance, "__pin"@),
                        fn_unpin: exported_function(*instance, "__unpin"@),
                        fn_collect: exported_function(*instance, "__collect"@),
                    }),
                ),
            },
    {
        let memory = match export_memory(instance, MEMORY_NAME) {
            Ok(memory) => memory,
            Err(_) => {
                return Err(Error::MemoryUnavailable);
            },
        };
        let fn_new = export_function(instance, Export::New.name());
        let fn_pin = export_function(instance, Export::Pin.name());
        let fn_unpin = export_function(instance, Export::Unpin.name());
        let fn_collect = export_function(instance, Export::Collect.name());
        Ok(Env { memory, fn_new, fn_pin, fn_unpin, fn_collect })
    }

    /// Whether the memory and the bindings live in the guest's store, as every
    /// operation on them asks.
    pub fn serves(&self, guest: &Guest<'_>) -> (fits: bool)
        ensures
            fits == self.lives_in(*guest),
    {
        memory_is_from(&guest.store, &self.memory) && binding_is_from(&guest.store, &self.fn_new)
            && binding_is_from(&guest.store, &self.fn_pin) && binding_is_from(
            &guest.store,
            &self.fn_unpin,
        ) && binding_is_from(&guest.store, &self.fn_collect)
    }

    /// Whether the guest exports one of the four functions.
    pub fn has(&self, export: Export) -> (present: bool)
        ensures
            present == self.binding(export) is Some,
    {
        match export {
            Export::New => self.fn_new.is_some(),
            Export::Pin => self.fn_pin.is_some(),
            Export::Unpin => self.fn_unpin.is_some(),
            Export::Collect => self.fn_collect.is_some(),
        }
    }

    /// Asks the guest for `size` bytes of a class and returns the new handle.
    ///
    /// Without `new` the request fails before anything is called, and the
    /// guest stays as it is. With it, `new` is called with the size and the
    /// class, and the handle is read from what it answered.
    pub fn reserve(&self, guest: &mut Guest<'_>, size: i32, class_id: i32) -> (handle: Result<
        u32,
        Error,
    >)
        ensures
            store_id(final(guest).store) == store_id(old(guest).store),
            match refusal(self, *old(guest), Ok(size)) {
                Some(error) => handle == Err::<u32, Error>(error) && *final(guest) == *old(guest),
                None => {
                    &&& final(guest).events@ == old(guest).events@ + call_of(
                        self.fn_new,
                        seq![size, class_id],
                        answer_at(final(guest).events@, old(guest).events@.len() as int),
                    )
                    &&& handle == reply(
                        answer_at(final(guest).events@, old(guest).events@.len() as int),
                    )
                },
            },
    {
        if !self.serves(guest) {
            return Err(Error::WrongStore);
        }
        let ghost before = guest.events@;
        match &self.fn_new {
            None => Err(Error::AllocatorUnavailable(Export::New)),
            Some(function) => {
                let mut arguments: Vec<i32> = Vec::new();
                arguments.push(size);
                arguments.push(class_id);
                assert(arguments@ =~= seq![size, class_id]);
                let results = guest.call(function, &arguments);
                proof {
                    let answer = answer_of(results);
                    assert(guest.events@[before.len() as int] == (Event::Called {
                        function: *function,
                        arguments: arguments@,
                        answer,
                    }));
                    let asked = call_of(self.fn_new, arguments@, answer);
                    assert(guest.events@ =~= before + asked);
                }
                match results {
                    Ok(results) => handle_from(&results),
                    Err(_) => Err(Error::CallFailed),
                }
            },
        }
    }

    /// Tells the guest that the host holds a handle: `pin` is called with the
    /// handle. Without `pin` nothing is called and the guest stays as it is.
    pub fn pin(&self, guest: &mut Guest<'_>, handle: u32) -> (done: Result<(), Error>)
        ensures
            store_id(final(guest).store) == store_id(old(guest).store),
            !self.lives_in(*old(guest)) ==> done == Err::<(), Error>(Error::WrongStore)
                && *final(guest) == *old(guest),
            self.lives_in(*old(guest)) ==> {
                &&& final(guest).events@ == old(guest).events@ + call_of(
                    self.fn_pin,
                    seq![handle_bits(handle)],
                    answer_at(final(guest).events@, old(guest).events@.len() as int),
                )
                &&& done == outcome(
                    self.fn_pin,
                    answer_at(final(guest).events@, old(guest).events@.len() as int),
                )
                &&& self.fn_pin is None ==> *final(guest) == *old(guest)
            },
    {
        if !self.serves(guest) {
            return Err(Error::WrongStore);
        }
        let mut arguments: Vec<i32> = Vec::new();
        arguments.push(handle_word(handle));
        assert(arguments@ =~= seq![handle_bits(handle)]);
        call_binding(guest, &self.fn_pin, &arguments)
    }

    /// Tells the guest that the host lets go of a handle: `unpin` is called
    /// with the handle. Without `unpin` nothing is called and the guest stays
    /// as it is.
    pub fn unpin(&self, guest: &mut Guest<'_>, handle: u32) -> (done: Result<(), Error>)
        ensures
            store_id(final(guest).store) == store_id(old(guest).store),
            !self.lives_in(*old(guest)) ==> done == Err::<(), Error>(Error::WrongStore)
                && *final(guest) == *old(guest),
            self.lives_in(*old(guest)) ==> {
                &&& final(guest).events@ == old(guest).events@ + call_of(
                    self.fn_unpin,
                    seq![handle_bits(handle)],
                    answer_at(final(guest).events@, old(guest).events@.len() as int),
                )
                &&& done == outcome(
                    self.fn_unpin,
                    answer_at(final(guest).events@, old(guest).events@.len() as int),
                )
                &&& self.fn_unpin is None ==> *final(guest) == *old(guest)
            },
    {
        if !self.serves(guest) {
            return Err(Error::WrongStore);
        }
        let mut arguments: Vec<i32> = Vec::new();
        arguments.push(handle_word(handle));
        assert(arguments@ =~= seq![handle_bits(handle)]);
        call_binding(guest, &self.fn_unpin, &arguments)
    }

    /// Lets the guest reclaim what nothing holds: `collect` is called. Without
    /// `collect` nothing is called and the guest stays as it is.
    pub fn collect(&self, guest: &mut Guest<'_>) -> (done: Result<(), Error>)
        ensures
            store_id(final(guest).store) == store_id(old(guest).store),
            !self.lives_in(*old(guest)) ==> done == Err::<(), Error>(Error::WrongStore)
                && *final(guest) == *old(guest),
            self.lives_in(*old(guest)) ==> {
                &&& final(guest).events@ == old(guest).events@ + call_of(
                    self.fn_collect,
                    Seq::empty(),
                    answer_at(final(guest).events@, old(guest).events@.len() as int),
                )
                &&& done == outcome(
                    self.fn_collect,
                    answer_at(final(guest).events@, old(guest).events@.len() as int),
                )
                &&& self.fn_collect is None ==> *final(guest) == *old(guest)
            },
    {
        if !self.serves(guest) {
            return Err(Error::WrongStore);
        }
        let arguments: Vec<i32> = Vec::new();
        assert(arguments@ =~= Seq::<i32>::empty());
        call_binding(guest, &self.fn_collect, &arguments)
    }

    /// Gives up the host's hold on a handle: `unpin`, then `collect`, each
    /// where the guest has it. Where `unpin` fails, `collect` is not called.
    /// Where the guest has neither, nothing is called and the guest stays as it
    /// is.
    pub fn release(&self, guest: &mut Guest<'_>, handle: u32) -> (done: Result<(), Error>)
        ensures
            store_id(final(guest).store) == store_id(old(guest).store),
            !self.lives_in(*old(guest)) ==> done == Err::<(), Error>(Error::WrongStore)
                && *final(guest) == *old(guest),
            self.lives_in(*old(guest)) ==> {
                &&& final(guest).events@ == old(guest).events@ + self.release_events(
                    handle,
                    final(guest).events@,
                    old(guest).events@.len() as int,
                )
                &&& done == self.release_result(
                    handle,
                    final(guest).events@,
                    old(guest).events@.len() as int,
                )
                &&& self.fn_unpin is None && self.fn_collect is None ==> *final(guest)
                    == *old(guest)
            },
    {
        let ghost before = guest.events@;
        let ghost at = before.len() as int;
        match self.unpin(guest, handle) {
            Ok(()) => {
                let ghost middle = guest.events@;
                let ghost unpinned = call_of(
                    self.fn_unpin,
                    seq![handle_bits(handle)],
                    answer_at(middle, at),
                );
                let done = self.collect(guest);
                proof {
                    let after = guest.events@;
                    assert(middle == before + unpinned);
                    if self.fn_unpin is Some {
                        assert(after[at] == middle[at]);
                        assert(answer_at(after, at) == answer_at(middle, at));
                    }
                    assert(call_of(self.fn_unpin, seq![handle_bits(handle)], answer_at(after, at))
                        =~= unpinned);
                    assert(middle.len() == at + unpinned.len());
                    assert(after =~= before + self.release_events(handle, after, at));
                }
                done
            },
            Err(error) => {
                proof {
                    if self.lives_in(*old(guest)) {
                        assert(guest.events@ =~= before + self.release_events(
                            handle,
                            guest.events@,
                            at,
                        ));
                    }
                }
                Err(error)
            },
        }
    }
}

} // verus!
