//! The failure model: a memory source refuses a read, or a value refuses the
//! bytes that were read; field accessors add where it happened.
use core::convert::Infallible;
use vstd::prelude::*;

verus! {

/// A read reached past the end of a bounded memory source.
#[derive(Debug, PartialEq, Eq, PartialOrd, Ord)]
pub struct OutOfBoundsViolation {
    pub access_offset: usize,
    pub access_len: usize,
    pub src_len: usize,
}

impl OutOfBoundsViolation {
    /// The text shown for this fault.
    pub fn message(&self) -> (text: &'static str)
        ensures
            text@ == "memory outside of the struct has been accessed"@,
    {
        "memory outside of the struct has been accessed"
    }
}

/// Why a value could not be decoded from a memory source: either the read
/// itself failed, or the bytes read are no value of the target type.
#[derive(Debug, PartialEq, Eq, PartialOrd, Ord, Clone, Copy)]
pub enum MemoryDecodeError<A, V> {
    MemoryAccess(A),
    ValueDecode(V),
}

impl<A, V> MemoryDecodeError<A, V> {
    /// Whether the memory source, not the decoder, refused.
    pub fn is_memory_access(&self) -> (yes: bool)
        ensures
            yes == (self is MemoryAccess),
    {
        match self {
            MemoryDecodeError::MemoryAccess(_) => true,
            MemoryDecodeError::ValueDecode(_) => false,
        }
    }
}

impl<A> MemoryDecodeError<A, Infallible> {
    /// The access fault inside an error of a decoder that cannot fail.
    pub fn into_access_error(self) -> (fault: A)
        requires
            self is MemoryAccess,
        ensures
            self == MemoryDecodeError::<A, Infallible>::MemoryAccess(fault),
    {
        match self {
            MemoryDecodeError::MemoryAccess(fault) => fault,
            MemoryDecodeError::ValueDecode(_) => vstd::pervasive::unreached(),
        }
    }
}

/// The direction of a memory access.
#[derive(Debug, PartialEq, Eq, Clone, Copy, Structural)]
pub enum AccessMode {
    Read,
    Write,
}

/// A failed access to a named member of a named structure.
#[derive(Debug, PartialEq, Eq, Clone)]
pub struct AccessError<E> {
    /// The structure through which the member was accessed.
    pub object: &'static str,
    /// The member that was accessed.
    pub member: &'static str,
    /// The offset in the memory source at which the access was attempted.
    pub offset: u64,
    /// The number of bytes the access asked for.
    pub size: usize,
    pub mode: AccessMode,
    /// The fault that the access ran into.
    pub source: E,
}

/// What a field accessor makes of a plain decode result: a value passes
/// through, a fault is reported with the place of the access.
pub open spec fn with_read_context<R, E>(
    plain: Result<R, E>,
    object: Seq<char>,
    member: Seq<char>,
    offset: u64,
    size: nat,
    reported: Result<R, AccessError<E>>,
) -> bool {
    match plain {
        Ok(value) => reported == Ok::<R, AccessError<E>>(value),
        Err(fault) => match reported {
            Ok(_) => false,
            Err(error) => {
                &&& error.object@ == object
                &&& error.member@ == member
                &&& error.offset == offset
                &&& error.size == size
                &&& error.mode == AccessMode::Read
                &&& error.source == fault
            },
        },
    }
}

/// Attaches the place of a read to its fault, if there is one.
pub fn add_read_context<R, E>(
    plain: Result<R, E>,
    object: &'static str,
    member: &'static str,
    offset: u64,
    size: usize,
) -> (reported: Result<R, AccessError<E>>)
    ensures
        with_read_context(plain, object@, member@, offset, size as nat, reported),
{
    match plain {
        Ok(value) => Ok(value),
        Err(fault) => Err(
            AccessError { object, member, offset, size, mode: AccessMode::Read, source: fault },
        ),
    }
}

} // verus!
