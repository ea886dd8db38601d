//! A structure in a memory source, read where it lies.
use crate::builtins::ptr::Ptr64;
use crate::copy;
use crate::copy::copy_spec;
use crate::error::{add_read_context, with_read_context, AccessError, MemoryDecodeError};
use crate::memory::{
    decode_sequence, read_object_spec, read_sequence, CopyConstructable, FromMemoryView,
    MemoryView, MemoryViewDereferenceable,
};
use crate::view::{TypedViewableField, Viewable, ViewableExtends, ViewableField, ViewableSized};
use core::marker::PhantomData;
use vstd::prelude::*;

verus! {

/// A `V` at an address of a memory source. Nothing is read before a field
/// is, and every access reads anew.
pub struct Reference<V: ?Sized, M: MemoryView> {
    memory: M,
    memory_offset: u64,
    _type: PhantomData<V>,
}

impl<T: ?Sized, M: MemoryView> Reference<T, M> {
    /// The memory source the reference reads from.
    pub closed spec fn spec_memory(&self) -> M {
        self.memory
    }

    /// The address in the memory source at which the object starts.
    pub closed spec fn spec_address(&self) -> u64 {
        self.memory_offset
    }

    /// The reference to the object at `address` of `memory`.
    pub closed spec fn at(memory: M, address: u64) -> Self {
        Reference { memory, memory_offset: address, _type: PhantomData }
    }

    /// A reference is no more than its memory source and its address.
    pub broadcast proof fn lemma_at(memory: M, address: u64)
        ensures
            (#[trigger] Self::at(memory, address)).spec_memory() == memory,
            Self::at(memory, address).spec_address() == address,
    {
    }

    pub proof fn lemma_is_at(self)
        ensures
            self == Self::at(self.spec_memory(), self.spec_address()),
    {
    }

    pub fn new(memory: M, address: u64) -> (reference: Self)
        ensures
            reference == Self::at(memory, address),
            reference.spec_memory() == memory,
            reference.spec_address() == address,
    {
        Reference { memory, memory_offset: address, _type: PhantomData }
    }

    pub fn memory_address(&self) -> (address: u64)
        ensures
            address == self.spec_address(),
    {
        self.memory_offset
    }

    pub fn memory(&self) -> (memory: &M)
        ensures
            *memory == self.spec_memory(),
    {
        &self.memory
    }

    /// The same memory at the same address, taken as a `V`.
    pub fn cast<V: ?Sized>(self) -> (reference: Reference<V, M>)
        ensures
            reference == Reference::<V, M>::at(self.spec_memory(), self.spec_address()),
            reference.spec_memory() == self.spec_memory(),
            reference.spec_address() == self.spec_address(),
    {
        Reference { memory: self.memory, memory_offset: self.memory_offset, _type: PhantomData }
    }
}

impl<T: ?Sized, M: MemoryView + Clone> Clone for Reference<T, M> {
    fn clone(&self) -> (copy: Self)
        ensures
            copy.spec_address() == self.spec_address(),
            cloned(self.spec_memory(), copy.spec_memory()),
    {
        Reference {
            memory: self.memory.clone(),
            memory_offset: self.memory_offset,
            _type: PhantomData,
        }
    }
}

impl<T: Viewable, M: MemoryView> Reference<T, M> {
    /// Decodes the field from the memory at the object's address plus the
    /// field's offset. Legal for the fields of every structure that `T`
    /// extends.
    pub fn read_field<R: FromMemoryView, C, F: Fn() -> u64>(
        &self,
        field: &TypedViewableField<C, R, F>,
    ) -> (res: Result<R, AccessError<MemoryDecodeError<M::AccessError, R::DecodeError>>>) where
        T: ViewableExtends<C>,

        requires
            field.resolvable(),
            forall|offset: u64|
                field.resolves_to(offset) ==> self.spec_address() + offset <= u64::MAX,
            R::read_len() <= usize::MAX,
        ensures
            exists|offset: u64|
                field.resolves_to(offset) && with_read_context(
                    read_object_spec::<R, M>(
                        &self.spec_memory(),
                        (self.spec_address() + offset) as u64,
                    ),
                    T::name_spec(),
                    field.name_spec(),
                    (self.spec_address() + offset) as u64,
                    R::read_len(),
                    res,
                ),
    {
        let address: u64 = self.memory_offset + field.offset();
        add_read_context(
            R::read_object(&self.memory, address),
            T::name(),
            field.name(),
            address,
            R::read_size(),
        )
    }

    /// The field as an object of its own, in the same memory.
    pub fn reference_field<R, C, F: Fn() -> u64>(
        &self,
        field: &TypedViewableField<C, R, F>,
    ) -> (reference: Reference<R, &M>) where T: ViewableExtends<C>
        requires
            field.resolvable(),
            forall|offset: u64|
                field.resolves_to(offset) ==> self.spec_address() + offset <= u64::MAX,
        ensures
            exists|offset: u64|
                field.resolves_to(offset) && reference == Reference::<R, &M>::at(
                    &self.spec_memory(),
                    (self.spec_address() + offset) as u64,
                ),
    {
        Reference::new(&self.memory, self.memory_offset + field.offset())
    }
}

impl<T: FromMemoryView, M: MemoryView> Reference<T, M> {
    /// Decodes the object.
    pub fn read(&self) -> (res: Result<T, MemoryDecodeError<M::AccessError, T::DecodeError>>)
        requires
            T::read_len() <= usize::MAX,
        ensures
            res == read_object_spec::<T, M>(&self.spec_memory(), self.spec_address()),
    {
        T::read_object(&self.memory, self.memory_offset)
    }
}

/// What following the pointer at `address` of `memory` leads to: the
/// address that the memory source makes of the pointer's, or the fault of
/// reading the pointer or of translating it.
pub open spec fn dereference_spec<M: MemoryViewDereferenceable>(memory: M, address: u64) -> Result<
    u64,
    M::AccessError,
> {
    match memory.read_spec(address, 8) {
        Err(fault) => Err(fault),
        Ok(bytes) => memory.dereference_spec(crate::encoding::le_to_nat(bytes) as u64),
    }
}

impl<T: ?Sized, M: MemoryViewDereferenceable> Reference<Ptr64<T>, M> {
    /// Reads the pointer and follows it, through the memory source's
    /// translation of addresses.
    pub fn dereference(self) -> (res: Result<Reference<T, M>, M::AccessError>)
        ensures
            res == match dereference_spec(self.spec_memory(), self.spec_address()) {
                Ok(target) => Ok(Reference::<T, M>::at(self.spec_memory(), target)),
                Err(fault) => Err(fault),
            },
    {
        proof {
            Ptr64::<T>::at(0).lemma_at();
        }
        let pointer = match Ptr64::<T>::read_object(&self.memory, self.memory_offset) {
            Ok(pointer) => pointer,
            Err(error) => {
                return Err(error.into_access_error());
            },
        };
        match self.memory.dereference(pointer.address()) {
            Ok(target) => Ok(Reference::new(self.memory, target)),
            Err(fault) => Err(fault),
        }
    }
}

impl<T: Viewable, M: MemoryViewDereferenceable> Reference<T, M> {
    /// Follows the pointer that the field holds.
    pub fn dereference_field<R: ?Sized, C, F: Fn() -> u64>(
        &self,
        field: &TypedViewableField<C, Ptr64<R>, F>,
    ) -> (res: Result<Reference<R, &M>, AccessError<M::AccessError>>) where T: ViewableExtends<C>
        requires
            field.resolvable(),
            forall|offset: u64|
                field.resolves_to(offset) ==> self.spec_address() + offset <= u64::MAX,
        ensures
            exists|offset: u64|
                field.resolves_to(offset) && with_read_context(
                    match dereference_spec(
                        &self.spec_memory(),
                        (self.spec_address() + offset) as u64,
                    ) {
                        Ok(target) => Ok(Reference::<R, &M>::at(&self.spec_memory(), target)),
                        Err(fault) => Err(fault),
                    },
                    T::name_spec(),
                    field.name_spec(),
                    (self.spec_address() + offset) as u64,
                    8,
                    res,
                ),
    {
        let offset: u64 = field.offset();
        let address: u64 = self.memory_offset + offset;
        let pointer: Reference<Ptr64<R>, &M> = Reference::new(&self.memory, address);
        add_read_context(pointer.dereference(), T::name(), field.name(), address, 8)
    }
}

impl<T: ViewableSized, M: MemoryView> Reference<T, M> {
    /// Copies the object out of the memory source.
    pub fn create_copy(&self) -> (res: Result<copy::Copy<T>, M::AccessError>)
        requires
            T::Memory::encoded_len() <= usize::MAX,
        ensures
            res == copy_spec::<T, M>(&self.spec_memory(), self.spec_address()),
    {
        copy::Copy::read_from_memory(&self.memory, self.memory_offset)
    }
}

/// The address of the element `index` of a sequence that starts at `start` and
/// whose elements take `size` bytes each.
pub open spec fn element_address(start: u64, index: int, size: nat) -> int {
    start + index * size
}

/// What reading a `T` of its own bytes at `address` of `memory` gives.
pub open spec fn read_value_spec<T: CopyConstructable, M: MemoryView>(
    memory: &M,
    address: u64,
) -> Result<T, M::AccessError> {
    match memory.read_spec(address, T::encoded_len()) {
        Ok(bytes) => Ok(T::decode_bytes(bytes)),
        Err(fault) => Err(fault),
    }
}

/// What copying the element `index` of the sequence of `T` at `start` out of
/// `memory` gives.
pub open spec fn copy_element_spec<T: ViewableSized, M: MemoryView>(
    memory: &M,
    start: u64,
    index: int,
) -> Result<copy::Copy<T>, M::AccessError> {
    copy_spec::<T, M>(memory, element_address(start, index, T::Memory::encoded_len()) as u64)
}

/// Computes the address of an element.
fn address_of_element(start: u64, index: usize, size: usize) -> (address: u64)
    requires
        element_address(start, index as int, size as nat) <= u64::MAX,
    ensures
        address == element_address(start, index as int, size as nat),
{
    assert(0 <= index * size) by (nonlinear_arith);
    start + (index as u64) * (size as u64)
}

fn read_element_at<T: CopyConstructable, M: MemoryView>(memory: &M, start: u64, index: usize) -> (res:
    Result<T, M::AccessError>)
    requires
        T::encoded_len() <= usize::MAX,
        element_address(start, index as int, T::encoded_len()) <= u64::MAX,
    ensures
        res == read_value_spec::<T, M>(
            memory,
            element_address(start, index as int, T::encoded_len()) as u64,
        ),
{
    let address: u64 = address_of_element(start, index, T::byte_size());
    match T::read_object(memory, address) {
        Ok(value) => Ok(value),
        Err(error) => Err(error.into_access_error()),
    }
}

/// Of a sequence of unknown length the elements are read one by one; no
/// index is refused before the memory source refuses it.
impl<T: CopyConstructable, M: MemoryView> Reference<[T], M> {
    /// Reads the element `index`.
    pub fn read_element(&self, index: usize) -> (res: Result<T, M::AccessError>)
        requires
            T::encoded_len() <= usize::MAX,
            element_address(self.spec_address(), index as int, T::encoded_len()) <= u64::MAX,
        ensures
            res == read_value_spec::<T, M>(
                &self.spec_memory(),
                element_address(self.spec_address(), index as int, T::encoded_len()) as u64,
            ),
    {
        read_element_at(&self.memory, self.memory_offset, index)
    }
}

impl<T: ViewableSized, M: MemoryView> Reference<[T], M> {
    /// The element `index` as an object of its own, in the same memory.
    pub fn reference_element(&self, index: usize) -> (reference: Reference<T, &M>)
        requires
            T::Memory::encoded_len() <= usize::MAX,
            element_address(self.spec_address(), index as int, T::Memory::encoded_len())
                <= u64::MAX,
        ensures
            reference == Reference::<T, &M>::at(
                &self.spec_memory(),
                element_address(
                    self.spec_address(),
                    index as int,
                    T::Memory::encoded_len(),
                ) as u64,
            ),
    {
        Reference::new(
            &self.memory,
            address_of_element(self.memory_offset, index, T::memory_size()),
        )
    }

    /// Copies the element `index` out of the memory source.
    pub fn copy_element(&self, index: usize) -> (res: Result<copy::Copy<T>, M::AccessError>)
        requires
            T::Memory::encoded_len() <= usize::MAX,
            element_address(self.spec_address(), index as int, T::Memory::encoded_len())
                <= u64::MAX,
        ensures
            res == copy_spec::<T, M>(
                &self.spec_memory(),
                element_address(
                    self.spec_address(),
                    index as int,
                    T::Memory::encoded_len(),
                ) as u64,
            ),
    {
        copy::Copy::<T>::read_from_memory(
            &self.memory,
            address_of_element(self.memory_offset, index, T::memory_size()),
        )
    }
}

impl<T, M: MemoryView, const N: usize> Reference<[T; N], M> {
    /// The number of elements.
    pub fn len(&self) -> (len: usize)
        ensures
            len == N,
    {
        N
    }
}

impl<T: CopyConstructable, M: MemoryView, const N: usize> Reference<[T; N], M> {
    /// Reads the element `index`.
    pub fn read_element(&self, index: usize) -> (res: Result<T, M::AccessError>)
        requires
            index <= N,
            T::encoded_len() <= usize::MAX,
            element_address(self.spec_address(), index as int, T::encoded_len()) <= u64::MAX,
        ensures
            res == read_value_spec::<T, M>(
                &self.spec_memory(),
                element_address(self.spec_address(), index as int, T::encoded_len()) as u64,
            ),
    {
        read_element_at(&self.memory, self.memory_offset, index)
    }

    /// Reads all elements in one read of `N` times the size of one.
    pub fn read_elements(&self) -> (res: Result<Vec<T>, M::AccessError>)
        requires
            T::encoded_len() <= usize::MAX,
            N * T::encoded_len() <= usize::MAX,
        ensures
            match self.spec_memory().read_spec(
                self.spec_address(),
                (N * T::encoded_len()) as nat,
            ) {
                Ok(bytes) => res matches Ok(values) && values@ == decode_sequence::<T>(
                    bytes,
                    N as nat,
                ),
                Err(fault) => res == Err::<Vec<T>, M::AccessError>(fault),
            },
    {
        read_sequence(&self.memory, self.memory_offset, N)
    }
}

impl<T: ViewableSized, M: MemoryView, const N: usize> Reference<[T; N], M> {
    /// The element `index` as an object of its own, in the same memory.
    pub fn reference_element(&self, index: usize) -> (reference: Reference<T, &M>)
        requires
            T::Memory::encoded_len() <= usize::MAX,
            element_address(self.spec_address(), index as int, T::Memory::encoded_len())
                <= u64::MAX,
        ensures
            reference == Reference::<T, &M>::at(
                &self.spec_memory(),
                element_address(
                    self.spec_address(),
                    index as int,
                    T::Memory::encoded_len(),
                ) as u64,
            ),
    {
        Reference::new(
            &self.memory,
            address_of_element(self.memory_offset, index, T::memory_size()),
        )
    }

    /// All elements, each as an object of its own in the same memory.
    pub fn reference_elements(&self) -> (references: Vec<Reference<T, &M>>)
        requires
            T::Memory::encoded_len() <= usize::MAX,
            forall|index: int|
                0 <= index < N ==> element_address(
                    self.spec_address(),
                    index,
                    T::Memory::encoded_len(),
                ) <= u64::MAX,
        ensures
            references@.len() == N,
            forall|index: int|
                0 <= index < N ==> references@[index] == Reference::<T, &M>::at(
                    &self.spec_memory(),
                    element_address(
                        self.spec_address(),
                        index as int,
                        T::Memory::encoded_len(),
                    ) as u64,
                ),
    {
        let mut references: Vec<Reference<T, &M>> = Vec::with_capacity(N);
        let mut index: usize = 0;
        while index < N
            invariant
                index <= N,
                T::Memory::encoded_len() <= usize::MAX,
                forall|i: int|
                    0 <= i < N ==> element_address(self.spec_address(), i, T::Memory::encoded_len())
                        <= u64::MAX,
                references@.len() == index,
                forall|i: int|
                    0 <= i < index ==> references@[i] == Reference::<T, &M>::at(
                        &self.spec_memory(),
                        element_address(
                            self.spec_address(),
                            i as int,
                            T::Memory::encoded_len(),
                        ) as u64,
                    ),
            decreases N - index,
        {
            references.push(self.reference_element(index));
            index = index + 1;
        }
        references
    }

    /// Copies the element `index` out of the memory source.
    pub fn copy_element(&self, index: usize) -> (res: Result<copy::Copy<T>, M::AccessError>)
        requires
            T::Memory::encoded_len() <= usize::MAX,
            element_address(self.spec_address(), index as int, T::Memory::encoded_len())
                <= u64::MAX,
        ensures
            res == copy_spec::<T, M>(
                &self.spec_memory(),
                element_address(
                    self.spec_address(),
                    index as int,
                    T::Memory::encoded_len(),
                ) as u64,
            ),
    {
        copy::Copy::<T>::read_from_memory(
            &self.memory,
            address_of_element(self.memory_offset, index, T::memory_size()),
        )
    }

    /// Copies all elements out of the memory source, one read each, up to
    /// the first that fails.
    pub fn copy_elements(&self) -> (res: Result<Vec<copy::Copy<T>>, M::AccessError>)
        requires
            T::Memory::encoded_len() <= usize::MAX,
            forall|index: int|
                0 <= index < N ==> element_address(
                    self.spec_address(),
                    index,
                    T::Memory::encoded_len(),
                ) <= u64::MAX,
        ensures
            match res {
                Ok(copies) => copies@.len() == N && forall|index: int|
                    0 <= index < N ==> Ok::<copy::Copy<T>, M::AccessError>(copies@[index])
                        == #[trigger] copy_element_spec::<T, M>(
                        &self.spec_memory(),
                        self.spec_address(),
                        index,
                    ),
                Err(fault) => exists|failed: int|
                    0 <= failed < N && Err::<copy::Copy<T>, M::AccessError>(fault)
                        == #[trigger] copy_element_spec::<T, M>(
                        &self.spec_memory(),
                        self.spec_address(),
                        failed,
                    ) && forall|index: int|
                        0 <= index < failed ==> (#[trigger] copy_element_spec::<T, M>(
                            &self.spec_memory(),
                            self.spec_address(),
                            index,
                        )) is Ok,
            },
    {
        let mut copies: Vec<copy::Copy<T>> = Vec::with_capacity(N);
        let mut index: usize = 0;
        while index < N
            invariant
                index <= N,
                T::Memory::encoded_len() <= usize::MAX,
                forall|i: int|
                    0 <= i < N ==> element_address(self.spec_address(), i, T::Memory::encoded_len())
                        <= u64::MAX,
                copies@.len() == index,
                forall|i: int|
                    0 <= i < index ==> Ok::<copy::Copy<T>, M::AccessError>(copies@[i])
                        == #[trigger] copy_element_spec::<T, M>(
                        &self.spec_memory(),
                        self.spec_address(),
                        i,
                    ),
            decreases N - index,
        {
            match self.copy_element(index) {
                Ok(element) => {
                    copies.push(element);
                },
                Err(fault) => {
                    proof {
                        let failed = index as int;
                        assert(Err::<copy::Copy<T>, M::AccessError>(fault) == copy_element_spec::<
                            T,
                            M,
                        >(&self.spec_memory(), self.spec_address(), failed));
                        assert forall|i: int| 0 <= i < failed implies (
                        #[trigger] copy_element_spec::<T, M>(
                            &self.spec_memory(),
                            self.spec_address(),
                            i,
                        )) is Ok by {
                            assert(Ok::<copy::Copy<T>, M::AccessError>(copies@[i])
                                == copy_element_spec::<T, M>(
                                &self.spec_memory(),
                                self.spec_address(),
                                i,
                            ));
                        }
                    }
                    return Err(fault);
                },
            }
            index = index + 1;
        }
        Ok(copies)
    }
}

} // verus!
