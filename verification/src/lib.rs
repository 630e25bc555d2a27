//! Marshalling of strings and byte buffers between a host and the linear memory
//! of a guest whose allocator keeps the byte length of each managed object in
//! the 32-bit word just before the object's payload.
use vstd::prelude::*;

use wasmer::Memory;

pub mod buffer_ptr;
pub mod env;
pub mod guest;
pub mod header;
pub mod string_ptr;
pub mod utf16;

pub use buffer_ptr::BufferPtr;
pub use env::Env;
pub use guest::Guest;
pub use string_ptr::StringPtr;

verus! {

/// Reading a guest value of type `T` through a handle.
pub trait Read<T> {
    /// The value that the memory holds at the handle.
    fn read(&self, guest: &Guest<'_>, memory: &Memory) -> Result<T, Error>;

    /// The byte length that the memory records for the handle.
    fn size(&self, guest: &Guest<'_>, memory: &Memory) -> Result<u32, Error>;
}

/// Placing a host value of type `T` in guest memory.
pub trait Write<T> {
    /// Allocates guest memory for the value, stores it and pins it.
    fn allocate(value: &T, guest: &mut Guest<'_>, env: &Env) -> Result<Box<Self>, Error> where
        Self: Sized;

    /// Stores the value in place where its size is the recorded one, and in a
    /// new allocation where it is not. The handle to use from then on is returned.
    fn write(&mut self, value: &T, guest: &mut Guest<'_>, env: &Env) -> Result<
        Box<Self>,
        Error,
    > where Self: Sized;

    /// Gives up the host's hold on the allocation.
    fn free(self, guest: &mut Guest<'_>, env: &Env) -> Result<(), Error> where Self: Sized;
}

/// One of the four functions that a guest may export for its allocator.
#[derive(Clone, Copy, Debug, PartialEq, Eq, Structural)]
pub enum Export {
    /// `__new(size, class) -> handle`
    New,
    /// `__pin(handle)`
    Pin,
    /// `__unpin(handle)`
    Unpin,
    /// `__collect()`
    Collect,
}

/// Why a marshalling operation failed.
#[derive(Clone, Copy, Debug, PartialEq, Eq, Structural)]
pub enum Error {
    /// The handle lies below the header that precedes every payload.
    InvalidOffset,
    /// The header word of the handle lies outside the memory.
    OutOfBounds,
    /// The payload that the header announces, or that is to be written, does not
    /// lie within the memory.
    MemoryFault,
    /// The guest does not export the allocator function that the operation needs.
    AllocatorUnavailable(Export),
    /// The encoded value is longer than the allocator's size argument can say.
    SizeOverflow,
    /// The guest's function trapped, or did not answer with the expected result.
    CallFailed,
    /// The memory or a binding does not live in the store that was handed in.
    WrongStore,
    /// The guest does not export its linear memory.
    MemoryUnavailable,
}

impl Export {
    /// The name under which the guest exports the function.
    pub fn name(&self) -> (name: &'static str)
        ensures
            name@ == match *self {
                Export::New => "__new"@,
                Export::Pin => "__pin"@,
                Export::Unpin => "__unpin"@,
                Export::Collect => "__collect"@,
            },
    {
        match self {
            Export::New => "__new",
            Export::Pin => "__pin",
            Export::Unpin => "__unpin",
            Export::Collect => "__collect",
        }
    }
}

impl Error {
    /// A sentence for the error, for diagnostics.
    pub fn message(&self) -> (text: &'static str)
        ensures
            text@ == match *self {
                Error::InvalidOffset => "Wrong offset: less than 4"@,
                Error::OutOfBounds => "Wrong offset: can't read size"@,
                Error::MemoryFault => "Wrong offset: can't reach the payload"@,
                Error::AllocatorUnavailable(_) => "Assembly Script Runtime not exported"@,
                Error::SizeOverflow => "Value too long for the allocator"@,
                Error::CallFailed => "Failed to call the guest"@,
                Error::WrongStore => "Memory or function of another store"@,
                Error::MemoryUnavailable => "Memory not exported"@,
            },
    {
        match self {
            Error::InvalidOffset => "Wrong offset: less than 4",
            Error::OutOfBounds => "Wrong offset: can't read size",
            Error::MemoryFault => "Wrong offset: can't reach the payload",
            Error::AllocatorUnavailable(_) => "Assembly Script Runtime not exported",
            Error::SizeOverflow => "Value too long for the allocator",
            Error::CallFailed => "Failed to call the guest",
            Error::WrongStore => "Memory or function of another store",
            Error::MemoryUnavailable => "Memory not exported",
        }
    }
}

} // verus!
