//! Memory sources: anything that can hand out the bytes at an offset.
use crate::error::{MemoryDecodeError, OutOfBoundsViolation};
use core::convert::Infallible;
use std::sync::Arc;
use vstd::prelude::*;

verus! {

/// A readable, byte-addressable memory source.
///
/// `read_spec` is the source's model: for each offset and length either the
/// bytes that a read yields or the fault it fails with. A source states its
/// model by overriding it. Of a source that states none, proofs know only
/// that a read is some function of the source, the offset and the length.
pub trait MemoryView {
    /// Why a read can fail.
    type AccessError;

    open spec fn read_spec(&self, offset: u64, len: nat) -> Result<Seq<u8>, Self::AccessError> {
        arbitrary::<spec_fn(&Self, u64, nat) -> Result<Seq<u8>, Self::AccessError>>()(
            self,
            offset,
            len,
        )
    }

    /// Fills `buffer` with the bytes at `offset`, or fails and leaves it
    /// untouched.
    fn read_memory(&self, offset: u64, buffer: &mut [u8]) -> (res: Result<(), Self::AccessError>)
        ensures
            final(buffer)@.len() == old(buffer)@.len(),
            match res {
                Ok(_) => self.read_spec(offset, old(buffer)@.len()) == Ok::<
                    Seq<u8>,
                    Self::AccessError,
                >(final(buffer)@),
                Err(fault) => self.read_spec(offset, old(buffer)@.len()) == Err::<
                    Seq<u8>,
                    Self::AccessError,
                >(fault) && final(buffer)@ == old(buffer)@,
            },
    ;
}

impl<M: MemoryView> MemoryView for &M {
    type AccessError = M::AccessError;

    open spec fn read_spec(&self, offset: u64, len: nat) -> Result<Seq<u8>, Self::AccessError> {
        (**self).read_spec(offset, len)
    }

    fn read_memory(&self, offset: u64, buffer: &mut [u8]) -> (res: Result<(), Self::AccessError>) {
        (**self).read_memory(offset, buffer)
    }
}

impl<M: ?Sized + MemoryView> MemoryView for Arc<M> {
    type AccessError = M::AccessError;

    open spec fn read_spec(&self, offset: u64, len: nat) -> Result<Seq<u8>, Self::AccessError> {
        (**self).read_spec(offset, len)
    }

    fn read_memory(&self, offset: u64, buffer: &mut [u8]) -> (res: Result<(), Self::AccessError>) {
        (**self).read_memory(offset, buffer)
    }
}

/// What a read of `len` bytes at `offset` from the bytes `content` gives.
pub open spec fn slice_read(content: Seq<u8>, offset: u64, len: nat) -> Result<
    Seq<u8>,
    OutOfBoundsViolation,
> {
    if offset + len <= content.len() {
        Ok(content.subrange(offset as int, offset + len))
    } else {
        Err(
            OutOfBoundsViolation {
                access_offset: offset as usize,
                access_len: len as usize,
                src_len: content.len() as usize,
            },
        )
    }
}

impl MemoryView for &[u8] {
    type AccessError = OutOfBoundsViolation;

    open spec fn read_spec(&self, offset: u64, len: nat) -> Result<Seq<u8>, OutOfBoundsViolation> {
        slice_read(self@, offset, len)
    }

    /// A read that does not lie within the slice fails with the range it
    /// asked for, and writes nothing.
    fn read_memory(&self, offset: u64, buffer: &mut [u8]) -> (res: Result<
        (),
        OutOfBoundsViolation,
    >)
        ensures
            res is Ok <==> offset + old(buffer)@.len() <= self@.len(),
            res is Ok ==> final(buffer)@ == self@.subrange(
                offset as int,
                offset + old(buffer)@.len(),
            ),
            res is Err ==> final(buffer)@ == old(buffer)@,
    {
        let wanted: usize = buffer.len();
        let total: usize = self.len();
        if offset > total as u64 || wanted > total - offset as usize {
            assert(self.read_spec(offset, wanted as nat) is Err);
            return Err(
                OutOfBoundsViolation {
                    access_offset: #[verifier::truncate] (offset as usize),
                    access_len: wanted,
                    src_len: total,
                },
            );
        }
        let start: usize = offset as usize;
        let mut done: usize = 0;
        while done < wanted
            invariant
                done <= wanted,
                wanted == buffer@.len(),
                total == self@.len(),
                start + wanted <= total,
                forall|k: int| 0 <= k < done ==> buffer@[k] == self@[start + k],
            decreases wanted - done,
        {
            buffer[done] = self[start + done];
            done = done + 1;
        }
        assert(buffer@ =~= self@.subrange(offset as int, offset + wanted));
        Ok(())
    }
}

/// A memory source that can translate an address found in memory into an
/// offset of its own. `dereference_spec` is the model of that translation,
/// stated by overriding it.
pub trait MemoryViewDereferenceable: MemoryView {
    open spec fn dereference_spec(&self, address: u64) -> Result<u64, Self::AccessError> {
        arbitrary::<spec_fn(&Self, u64) -> Result<u64, Self::AccessError>>()(self, address)
    }

    fn dereference(&self, address: u64) -> (res: Result<u64, Self::AccessError>)
        ensures
            res == self.dereference_spec(address),
    ;
}

impl<M: MemoryViewDereferenceable> MemoryViewDereferenceable for &M {
    open spec fn dereference_spec(&self, address: u64) -> Result<u64, Self::AccessError> {
        (**self).dereference_spec(address)
    }

    fn dereference(&self, address: u64) -> (res: Result<u64, Self::AccessError>) {
        (**self).dereference(address)
    }
}

impl<M: ?Sized + MemoryViewDereferenceable> MemoryViewDereferenceable for Arc<M> {
    open spec fn dereference_spec(&self, address: u64) -> Result<u64, Self::AccessError> {
        (**self).dereference_spec(address)
    }

    fn dereference(&self, address: u64) -> (res: Result<u64, Self::AccessError>) {
        (**self).dereference(address)
    }
}

/// A value that can be decoded from a fixed number of bytes of a memory
/// source.
///
/// The decoded value may differ in representation and size from the bytes it
/// was read from. `read_len` and `decode_spec` are the decoder's model, which
/// a decoder states by overriding them; of one that states none, proofs know
/// only that the value is some function of the bytes.
pub trait FromMemoryView: Sized {
    /// Why bytes that were read can fail to be a value.
    type DecodeError;

    /// The number of bytes a value is decoded from.
    open spec fn read_len() -> nat {
        arbitrary()
    }

    /// The value that the bytes stand for, or why they stand for none.
    open spec fn decode_spec(bytes: Seq<u8>) -> Result<Self, Self::DecodeError> {
        arbitrary::<spec_fn(Seq<u8>) -> Result<Self, Self::DecodeError>>()(bytes)
    }

    fn read_size() -> (size: usize)
        requires
            Self::read_len() <= usize::MAX,
        ensures
            size == Self::read_len(),
    ;

    /// Reads `read_len()` bytes at `offset` and decodes them.
    fn read_object<M: MemoryView>(view: &M, offset: u64) -> (res: Result<
        Self,
        MemoryDecodeError<M::AccessError, Self::DecodeError>,
    >)
        requires
            Self::read_len() <= usize::MAX,
        ensures
            res == match view.read_spec(offset, Self::read_len()) {
                Err(fault) => Err(MemoryDecodeError::MemoryAccess(fault)),
                Ok(bytes) => match Self::decode_spec(bytes) {
                    Ok(value) => Ok(value),
                    Err(refusal) => Err(MemoryDecodeError::ValueDecode(refusal)),
                },
            },
    ;
}

/// The outcome of decoding a `T` at `offset` of `view`: a fault of the source
/// if the bytes cannot be read, else what the decoder makes of them.
pub open spec fn read_object_spec<T: FromMemoryView, M: MemoryView>(
    view: &M,
    offset: u64,
) -> Result<T, MemoryDecodeError<M::AccessError, T::DecodeError>> {
    match view.read_spec(offset, T::read_len()) {
        Err(fault) => Err(MemoryDecodeError::MemoryAccess(fault)),
        Ok(bytes) => match T::decode_spec(bytes) {
            Ok(value) => Ok(value),
            Err(refusal) => Err(MemoryDecodeError::ValueDecode(refusal)),
        },
    }
}

/// A value that is its bytes, decoded from bytes that a slice holds, spells
/// those bytes again: the read succeeds, and nothing of the bytes is lost or
/// changed by decoding.
pub proof fn lemma_decode_round_trip<T: CopyConstructable>(buffer: &[u8], offset: u64)
    requires
        offset + T::encoded_len() <= buffer@.len(),
    ensures
        match read_object_spec::<T, &[u8]>(&buffer, offset) {
            Ok(value) => value.encode_bytes() == buffer@.subrange(
                offset as int,
                offset + T::encoded_len(),
            ),
            Err(_) => false,
        },
{
    let bytes = buffer@.subrange(offset as int, offset + T::encoded_len());
    assert(<T as FromMemoryView>::read_len() == T::encoded_len());
    assert(<T as FromMemoryView>::decode_spec(bytes) == Ok::<T, Infallible>(
        T::decode_bytes(bytes),
    ));
    assert((&buffer).read_spec(offset, T::encoded_len()) == Ok::<Seq<u8>, OutOfBoundsViolation>(
        bytes,
    ));
    T::lemma_decode_encode(bytes);
}

/// A read from a slice fails if and only if it does not lie within the
/// slice, and then names the offset and length asked for and the length of
/// the slice.
pub proof fn lemma_slice_read_bounds(content: &[u8], offset: u64, len: usize)
    ensures
        (&content).read_spec(offset, len as nat) is Ok <==> offset + len <= content@.len(),
        offset + len > content@.len() ==> (&content).read_spec(offset, len as nat) == Err::<
            Seq<u8>,
            OutOfBoundsViolation,
        >(
            OutOfBoundsViolation {
                access_offset: offset as usize,
                access_len: len,
                src_len: content@.len() as usize,
            },
        ),
{
}

/// `len` zero bytes.
pub open spec fn zero_bytes(len: nat) -> Seq<u8> {
    Seq::new(len, |i: int| 0u8)
}

/// A value that is its bytes: every string of `encoded_len()` bytes is a
/// value, and the value spells those bytes again.
///
/// Such a value is decoded by reading its bytes; that cannot fail but for the
/// memory source.
pub trait CopyConstructable: Copy {
    /// The number of bytes of a value.
    spec fn encoded_len() -> nat;

    spec fn decode_bytes(bytes: Seq<u8>) -> Self;

    spec fn encode_bytes(self) -> Seq<u8>;

    proof fn lemma_encode_len(self)
        ensures
            self.encode_bytes().len() == Self::encoded_len(),
    ;

    proof fn lemma_decode_encode(bytes: Seq<u8>)
        requires
            bytes.len() == Self::encoded_len(),
        ensures
            Self::decode_bytes(bytes).encode_bytes() == bytes,
    ;

    fn byte_size() -> (size: usize)
        requires
            Self::encoded_len() <= usize::MAX,
        ensures
            size == Self::encoded_len(),
    ;

    /// The value whose bytes are all zero.
    fn zeroed() -> (value: Self)
        ensures
            value == Self::decode_bytes(zero_bytes(Self::encoded_len())),
    ;

    fn from_bytes(bytes: &[u8]) -> (value: Self)
        requires
            bytes@.len() == Self::encoded_len(),
        ensures
            value == Self::decode_bytes(bytes@),
    ;

    fn to_bytes(&self) -> (bytes: Vec<u8>)
        ensures
            bytes@ == self.encode_bytes(),
    ;
}

/// A buffer of `len` zero bytes.
pub fn zeroed_buffer(len: usize) -> (buffer: Vec<u8>)
    ensures
        buffer@ == zero_bytes(len as nat),
{
    let mut buffer: Vec<u8> = Vec::with_capacity(len);
    while buffer.len() < len
        invariant
            buffer@.len() <= len,
            forall|k: int| 0 <= k < buffer@.len() ==> buffer@[k] == 0u8,
        decreases len - buffer@.len(),
    {
        buffer.push(0u8);
    }
    assert(buffer@ =~= zero_bytes(len as nat));
    buffer
}

impl<T: CopyConstructable> FromMemoryView for T {
    type DecodeError = Infallible;

    open spec fn read_len() -> nat {
        T::encoded_len()
    }

    open spec fn decode_spec(bytes: Seq<u8>) -> Result<Self, Infallible> {
        Ok(T::decode_bytes(bytes))
    }

    fn read_size() -> (size: usize) {
        T::byte_size()
    }

    fn read_object<M: MemoryView>(view: &M, offset: u64) -> (res: Result<
        Self,
        MemoryDecodeError<M::AccessError, Infallible>,
    >) {
        assert(Self::read_len() == T::encoded_len());
        let mut buffer = zeroed_buffer(T::byte_size());
        match view.read_memory(offset, buffer.as_mut_slice()) {
            Ok(_) => {
                assert(Self::decode_spec(buffer@) == Ok::<T, Infallible>(
                    T::decode_bytes(buffer@),
                ));
                Ok(T::from_bytes(buffer.as_slice()))
            },
            Err(fault) => Err(MemoryDecodeError::MemoryAccess(fault)),
        }
    }
}

/// The values that `count` consecutive groups of `T::encoded_len()` bytes
/// stand for.
pub open spec fn decode_sequence<T: CopyConstructable>(bytes: Seq<u8>, count: nat) -> Seq<T> {
    Seq::new(
        count,
        |i: int| T::decode_bytes(bytes.subrange(i * T::encoded_len(), (i + 1) * T::encoded_len())),
    )
}

/// Decodes `count` values that lie one after the other in `bytes`.
pub fn from_bytes_sequence<T: CopyConstructable>(bytes: &[u8], count: usize) -> (values: Vec<T>)
    requires
        bytes@.len() == count * T::encoded_len(),
        T::encoded_len() <= usize::MAX,
    ensures
        values@ == decode_sequence::<T>(bytes@, count as nat),
{
    let size: usize = T::byte_size();
    let total: usize = bytes.len();
    let mut values: Vec<T> = Vec::with_capacity(count);
    let mut index: usize = 0;
    while index < count
        invariant
            index <= count,
            size == T::encoded_len(),
            bytes@.len() == count * size,
            total == count * size,
            values@.len() == index,
            forall|i: int|
                0 <= i < index ==> values@[i] == T::decode_bytes(
                    #[trigger] bytes@.subrange(i * size, (i + 1) * size),
                ),
        decreases count - index,
    {
        proof {
            assert(index * size + size == (index + 1) * size) by (nonlinear_arith);
            assert(0 <= index * size) by (nonlinear_arith);
            assert((index + 1) * size <= count * size) by (nonlinear_arith)
                requires
                    index + 1 <= count,
            ;
        }
        let start: usize = index * size;
        let chunk = vstd::slice::slice_subrange(bytes, start, start + size);
        values.push(T::from_bytes(chunk));
        index = index + 1;
    }
    assert(values@ =~= decode_sequence::<T>(bytes@, count as nat));
    values
}

/// Reads `count` values that lie one after the other from `offset` on, all
/// in one read.
pub fn read_sequence<T: CopyConstructable, M: MemoryView>(
    memory: &M,
    offset: u64,
    count: usize,
) -> (res: Result<Vec<T>, M::AccessError>)
    requires
        T::encoded_len() <= usize::MAX,
        count * T::encoded_len() <= usize::MAX,
    ensures
        match memory.read_spec(offset, (count * T::encoded_len()) as nat) {
            Ok(bytes) => res matches Ok(values) && values@ == decode_sequence::<T>(
                bytes,
                count as nat,
            ),
            Err(fault) => res == Err::<Vec<T>, M::AccessError>(fault),
        },
{
    let mut buffer = zeroed_buffer(count * T::byte_size());
    match memory.read_memory(offset, buffer.as_mut_slice()) {
        Ok(_) => Ok(from_bytes_sequence(buffer.as_slice(), count)),
        Err(fault) => Err(fault),
    }
}

impl FromMemoryView for bool {
    type DecodeError = Infallible;

    open spec fn read_len() -> nat {
        1
    }

    /// Any byte but zero stands for `true`.
    open spec fn decode_spec(bytes: Seq<u8>) -> Result<bool, Infallible> {
        Ok(bytes[0] > 0)
    }

    fn read_size() -> (size: usize) {
        1
    }

    fn read_object<M: MemoryView>(view: &M, offset: u64) -> (res: Result<
        bool,
        MemoryDecodeError<M::AccessError, Infallible>,
    >) {
        let mut buffer = zeroed_buffer(1);
        match view.read_memory(offset, buffer.as_mut_slice()) {
            Ok(_) => Ok(buffer[0] > 0),
            Err(fault) => Err(MemoryDecodeError::MemoryAccess(fault)),
        }
    }
}

} // verus!
