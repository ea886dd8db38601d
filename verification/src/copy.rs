//! A structure held as a value of its own bytes.
use crate::error::{with_read_context, AccessError, MemoryDecodeError, OutOfBoundsViolation};
use crate::memory::{
    read_object_spec, slice_read, zero_bytes, CopyConstructable, FromMemoryView, MemoryView,
};
use crate::reference::Reference;
use crate::view::{TypedViewableField, ViewableExtends, ViewableField, ViewableSized};
use core::convert::Infallible;
use vstd::prelude::*;

verus! {

/// A value as a memory source: its bytes, from offset zero.
#[derive(Clone, Copy)]
pub struct CopyMemory<M: core::marker::Copy>(pub M);

impl<M: CopyConstructable> MemoryView for CopyMemory<M> {
    type AccessError = OutOfBoundsViolation;

    open spec fn read_spec(&self, offset: u64, len: nat) -> Result<Seq<u8>, OutOfBoundsViolation> {
        slice_read(self.0.encode_bytes(), offset, len)
    }

    /// A read that does not lie within the value's bytes fails, and writes
    /// nothing.
    fn read_memory(&self, offset: u64, buffer: &mut [u8]) -> (res: Result<
        (),
        OutOfBoundsViolation,
    >)
        ensures
            res is Ok <==> offset + old(buffer)@.len() <= M::encoded_len(),
            res is Err ==> final(buffer)@ == old(buffer)@,
    {
        proof {
            self.0.lemma_encode_len();
        }
        let bytes = self.0.to_bytes();
        let content: &[u8] = bytes.as_slice();
        content.read_memory(offset, buffer)
    }
}

/// What copying a `V` at `address` out of `memory` gives.
pub open spec fn copy_spec<V: ViewableSized, M: MemoryView>(memory: &M, address: u64) -> Result<
    Copy<V>,
    M::AccessError,
> {
    match memory.read_spec(address, V::Memory::encoded_len()) {
        Ok(bytes) => Ok(Copy::<V>::holding(V::Memory::decode_bytes(bytes))),
        Err(fault) => Err(fault),
    }
}

/// An owned copy of the bytes of a `V`. Reading its fields reads no other
/// memory.
pub struct Copy<V: ViewableSized> {
    inner: Reference<V, CopyMemory<V::Memory>>,
}

impl<V: ViewableSized> Copy<V> {
    /// The copy that holds `value`.
    pub closed spec fn holding(value: V::Memory) -> Self {
        Copy { inner: Reference::at(CopyMemory(value), 0) }
    }

    /// The bytes of the structure, as the value that is those bytes.
    pub closed spec fn spec_value(&self) -> V::Memory {
        self.inner.spec_memory().0
    }

    #[verifier::type_invariant]
    closed spec fn based_at_zero(&self) -> bool {
        self.inner.spec_address() == 0
    }

    pub broadcast proof fn lemma_holding(value: V::Memory)
        ensures
            (#[trigger] Self::holding(value)).spec_value() == value,
    {
        Reference::<V, CopyMemory<V::Memory>>::lemma_at(CopyMemory(value), 0);
    }

    pub fn new(inner: V::Memory) -> (copy: Self)
        ensures
            copy == Self::holding(inner),
            copy.spec_value() == inner,
    {
        Copy { inner: Reference::new(CopyMemory(inner), 0x00) }
    }

    /// A copy whose bytes are all zero. Whether zeros make sense as a `V` is
    /// for the caller to know.
    pub fn new_zerod() -> (copy: Self)
        ensures
            copy == Self::holding(V::Memory::decode_bytes(zero_bytes(V::Memory::encoded_len()))),
    {
        Self::new(V::Memory::zeroed())
    }

    /// Copies the bytes of a `V` at `offset` out of `memory`.
    pub fn read_from_memory<M: MemoryView>(memory: &M, offset: u64) -> (res: Result<
        Self,
        M::AccessError,
    >)
        requires
            V::Memory::encoded_len() <= usize::MAX,
        ensures
            res == copy_spec::<V, M>(memory, offset),
    {
        match V::Memory::read_object(memory, offset) {
            Ok(value) => Ok(Self::new(value)),
            Err(error) => Err(error.into_access_error()),
        }
    }

    /// The copy as a reference into its own bytes. A copy is no more than
    /// the value it holds.
    pub fn as_reference(&self) -> (reference: &Reference<V, CopyMemory<V::Memory>>)
        ensures
            *reference == Reference::<V, CopyMemory<V::Memory>>::at(
                CopyMemory(self.spec_value()),
                0,
            ),
            reference.spec_memory() == CopyMemory(self.spec_value()),
            reference.spec_address() == 0,
            *self == Self::holding(self.spec_value()),
    {
        proof {
            use_type_invariant(self);
            self.inner.lemma_is_at();
        }
        &self.inner
    }

    /// Decodes the field from the copy's own bytes.
    pub fn read_field<R: FromMemoryView, C, F: Fn() -> u64>(
        &self,
        field: &TypedViewableField<C, R, F>,
    ) -> (res: Result<R, AccessError<MemoryDecodeError<OutOfBoundsViolation, R::DecodeError>>>) where
        V: ViewableExtends<C>,

        requires
            field.resolvable(),
            R::read_len() <= usize::MAX,
        ensures
            exists|offset: u64|
                field.resolves_to(offset) && with_read_context(
                    read_object_spec::<R, CopyMemory<V::Memory>>(
                        &CopyMemory(self.spec_value()),
                        offset,
                    ),
                    V::name_spec(),
                    field.name_spec(),
                    offset,
                    R::read_len(),
                    res,
                ),
    {
        self.as_reference().read_field(field)
    }

    /// The field as an object of its own, in the copy's bytes.
    pub fn reference_field<R, C, F: Fn() -> u64>(
        &self,
        field: &TypedViewableField<C, R, F>,
    ) -> (reference: Reference<R, &CopyMemory<V::Memory>>) where V: ViewableExtends<C>
        requires
            field.resolvable(),
        ensures
            exists|offset: u64|
                field.resolves_to(offset) && reference == Reference::<
                    R,
                    &CopyMemory<V::Memory>,
                >::at(&CopyMemory(self.spec_value()), offset),
    {
        self.as_reference().reference_field(field)
    }
}

impl<V: ViewableSized> core::ops::Deref for Copy<V> {
    type Target = Reference<V, CopyMemory<V::Memory>>;

    fn deref(&self) -> (reference: &Reference<V, CopyMemory<V::Memory>>)
        ensures
            reference.spec_memory() == CopyMemory(self.spec_value()),
            reference.spec_address() == 0,
    {
        self.as_reference()
    }
}

impl<V: ViewableSized> Clone for Copy<V> {
    fn clone(&self) -> (copy: Self)
        ensures
            copy == *self,
    {
        proof {
            use_type_invariant(self);
            self.inner.lemma_is_at();
        }
        Self::new(self.inner.memory().0)
    }
}

/// A copy holds what the source held when the copy was made: a value decoded
/// at `field_offset` of a copy read at `address` of `source` is the value
/// decoded at `address + field_offset` of `source` as it was then, wherever
/// the field lies within the structure. No later state of the source enters.
pub proof fn lemma_copy_keeps_snapshot<V: ViewableSized, R: FromMemoryView>(
    source: &[u8],
    address: u64,
    field_offset: u64,
)
    requires
        source@.len() <= usize::MAX,
        address + V::Memory::encoded_len() <= source@.len(),
        field_offset + R::read_len() <= V::Memory::encoded_len(),
    ensures
        copy_spec::<V, &[u8]>(&source, address) matches Ok(snapshot)
            && read_object_spec::<R, CopyMemory<V::Memory>>(
            &CopyMemory(snapshot.spec_value()),
            field_offset,
        ) == read_object_spec::<R, &[u8]>(&source, (address + field_offset) as u64),
{
    let size = V::Memory::encoded_len();
    let bytes = source@.subrange(address as int, address + size);
    let value = V::Memory::decode_bytes(bytes);
    Copy::<V>::lemma_holding(value);
    V::Memory::lemma_decode_encode(bytes);
    let held = CopyMemory(value);
    assert(held.read_spec(field_offset, R::read_len()) == slice_read(
        bytes,
        field_offset,
        R::read_len(),
    ));
    assert((&source).read_spec((address + field_offset) as u64, R::read_len()) == slice_read(
        source@,
        (address + field_offset) as u64,
        R::read_len(),
    ));
    assert(bytes.subrange(field_offset as int, field_offset + R::read_len()) =~= source@.subrange(
        address + field_offset,
        address + field_offset + R::read_len(),
    ));
}

/// A copy is decoded like the value of its bytes.
impl<V: ViewableSized> FromMemoryView for Copy<V> {
    type DecodeError = Infallible;

    open spec fn read_len() -> nat {
        V::Memory::encoded_len()
    }

    open spec fn decode_spec(bytes: Seq<u8>) -> Result<Self, Infallible> {
        Ok(Self::holding(V::Memory::decode_bytes(bytes)))
    }

    fn read_size() -> (size: usize) {
        V::Memory::byte_size()
    }

    fn read_object<M: MemoryView>(view: &M, offset: u64) -> (res: Result<
        Self,
        MemoryDecodeError<M::AccessError, Infallible>,
    >) {
        match V::Memory::read_object(view, offset) {
            Ok(value) => Ok(Self::new(value)),
            Err(error) => Err(error),
        }
    }
}

} // verus!
