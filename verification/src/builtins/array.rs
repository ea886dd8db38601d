//! Sequences of equal elements that lie one after the other in memory.
use crate::copy;
use crate::copy::copy_spec;
use crate::error::MemoryDecodeError;
use crate::memory::{
    decode_sequence, read_object_spec, read_sequence, CopyConstructable, FromMemoryView,
    MemoryView,
};
use crate::builtins::ptr::Ptr64;
use crate::reference::{element_address, Reference};
use crate::view::ViewableSized;
use core::ops::Range;
use vstd::prelude::*;

verus! {

/// A sequence of `T` from a start address on. Its length may be unknown; no
/// index is held against it: what lies outside the memory source, the memory
/// source refuses.
pub trait Array<T> {
    spec fn start_address_spec(&self) -> u64;

    spec fn len_spec(&self) -> Option<usize>;

    /// The address of the first element.
    fn start_address(&self) -> (address: u64)
        ensures
            address == self.start_address_spec(),
    ;

    /// The number of elements, where it is known.
    fn known_len(&self) -> (len: Option<usize>)
        ensures
            len == self.len_spec(),
    ;

    /// Decodes the element `index` from `memory`.
    fn element_at<M: MemoryView>(&self, memory: &M, index: usize) -> (res: Result<
        T,
        MemoryDecodeError<M::AccessError, T::DecodeError>,
    >) where T: FromMemoryView
        requires
            T::read_len() <= usize::MAX,
            element_address(self.start_address_spec(), index as int, T::read_len()) <= u64::MAX,
        ensures
            res == read_object_spec::<T, M>(
                memory,
                element_address(self.start_address_spec(), index as int, T::read_len()) as u64,
            ),
    {
        let size: usize = T::read_size();
        assert(0 <= index * size) by (nonlinear_arith);
        T::read_object(memory, self.start_address() + (index as u64) * (size as u64))
    }

    /// Reads the elements of `range` in one read that spans exactly them.
    fn elements<M: MemoryView>(&self, memory: &M, range: Range<usize>) -> (res: Result<
        Vec<T>,
        M::AccessError,
    >) where T: CopyConstructable
        requires
            range.start <= range.end,
            T::encoded_len() <= usize::MAX,
            (range.end - range.start) * T::encoded_len() <= usize::MAX,
            element_address(self.start_address_spec(), range.start as int, T::encoded_len())
                <= u64::MAX,
        ensures
            match memory.read_spec(
                element_address(
                    self.start_address_spec(),
                    range.start as int,
                    T::encoded_len(),
                ) as u64,
                ((range.end - range.start) * T::encoded_len()) as nat,
            ) {
                Ok(bytes) => res matches Ok(values) && values@ == decode_sequence::<T>(
                    bytes,
                    (range.end - range.start) as nat,
                ),
                Err(fault) => res == Err::<Vec<T>, M::AccessError>(fault),
            },
    {
        let size: usize = T::byte_size();
        assert(0 <= range.start * size) by (nonlinear_arith);
        let first: u64 = self.start_address() + (range.start as u64) * (size as u64);
        read_sequence(memory, first, range.end - range.start)
    }

    /// The element `index` as an object of its own in `memory`.
    fn element_reference<M: MemoryView>(&self, memory: M, index: usize) -> (reference: Reference<
        T,
        M,
    >) where T: ViewableSized
        requires
            T::Memory::encoded_len() <= usize::MAX,
            element_address(self.start_address_spec(), index as int, T::Memory::encoded_len())
                <= u64::MAX,
        ensures
            reference == Reference::<T, M>::at(
                memory,
                element_address(
                    self.start_address_spec(),
                    index as int,
                    T::Memory::encoded_len(),
                ) as u64,
            ),
    {
        let size: usize = T::memory_size();
        assert(0 <= index * size) by (nonlinear_arith);
        Reference::new(memory, self.start_address() + (index as u64) * (size as u64))
    }

    /// The elements of `range`, each as an object of its own in a clone of
    /// `memory`.
    fn elements_reference<M: MemoryView + Clone>(&self, memory: M, range: Range<usize>) -> (references:
        Vec<Reference<T, M>>) where T: ViewableSized
        requires
            range.start <= range.end,
            T::Memory::encoded_len() <= usize::MAX,
            forall|index: int|
                range.start <= index < range.end ==> element_address(
                    self.start_address_spec(),
                    index,
                    T::Memory::encoded_len(),
                ) <= u64::MAX,
        ensures
            references@.len() == range.end - range.start,
            forall|k: int|
                0 <= k < references@.len() ==> {
                    &&& (#[trigger] references@[k]).spec_address() == element_address(
                        self.start_address_spec(),
                        range.start + k,
                        T::Memory::encoded_len(),
                    )
                    &&& cloned(memory, references@[k].spec_memory())
                },
    {
        let size: usize = T::memory_size();
        let start: u64 = self.start_address();
        let mut references: Vec<Reference<T, M>> = Vec::new();
        let mut index: usize = range.start;
        while index < range.end
            invariant
                range.start <= index <= range.end,
                size == T::Memory::encoded_len(),
                start == self.start_address_spec(),
                forall|i: int|
                    range.start <= i < range.end ==> element_address(start, i, size as nat)
                        <= u64::MAX,
                references@.len() == index - range.start,
                forall|k: int|
                    0 <= k < references@.len() ==> {
                        &&& (#[trigger] references@[k]).spec_address() == element_address(
                            start,
                            range.start + k,
                            size as nat,
                        )
                        &&& cloned(memory, references@[k].spec_memory())
                    },
            decreases range.end - index,
        {
            assert(element_address(start, index as int, size as nat) <= u64::MAX);
            assert(0 <= index * size) by (nonlinear_arith);
            references.push(
                Reference::new(memory.clone(), start + (index as u64) * (size as u64)),
            );
            index = index + 1;
        }
        references
    }

    /// Copies the element `index` out of `memory`.
    fn element_copy<M: MemoryView>(&self, memory: &M, index: usize) -> (res: Result<
        copy::Copy<T>,
        M::AccessError,
    >) where T: ViewableSized
        requires
            T::Memory::encoded_len() <= usize::MAX,
            element_address(self.start_address_spec(), index as int, T::Memory::encoded_len())
                <= u64::MAX,
        ensures
            res == copy_spec::<T, M>(
                memory,
                element_address(
                    self.start_address_spec(),
                    index as int,
                    T::Memory::encoded_len(),
                ) as u64,
            ),
    {
        let size: usize = T::memory_size();
        assert(0 <= index * size) by (nonlinear_arith);
        copy::Copy::<T>::read_from_memory(
            memory,
            self.start_address() + (index as u64) * (size as u64),
        )
    }

    /// Copies the elements of `range` out of `memory`, in one read that
    /// spans exactly them.
    fn elements_copy<M: MemoryView>(&self, memory: &M, range: Range<usize>) -> (res: Result<
        Vec<copy::Copy<T>>,
        M::AccessError,
    >) where T: ViewableSized
        requires
            range.start <= range.end,
            T::Memory::encoded_len() <= usize::MAX,
            (range.end - range.start) * T::Memory::encoded_len() <= usize::MAX,
            element_address(
                self.start_address_spec(),
                range.start as int,
                T::Memory::encoded_len(),
            ) <= u64::MAX,
        ensures
            match memory.read_spec(
                element_address(
                    self.start_address_spec(),
                    range.start as int,
                    T::Memory::encoded_len(),
                ) as u64,
                ((range.end - range.start) * T::Memory::encoded_len()) as nat,
            ) {
                Ok(bytes) => res matches Ok(copies) && copies@ == decode_sequence::<T::Memory>(
                    bytes,
                    (range.end - range.start) as nat,
                ).map_values(|value: T::Memory| copy::Copy::<T>::holding(value)),
                Err(fault) => res == Err::<Vec<copy::Copy<T>>, M::AccessError>(fault),
            },
    {
        let size: usize = T::memory_size();
        assert(0 <= range.start * size) by (nonlinear_arith);
        let first: u64 = self.start_address() + (range.start as u64) * (size as u64);
        let values: Vec<T::Memory> = match read_sequence(
            memory,
            first,
            range.end - range.start,
        ) {
            Ok(values) => values,
            Err(fault) => {
                return Err(fault);
            },
        };
        let mut copies: Vec<copy::Copy<T>> = Vec::with_capacity(values.len());
        let mut index: usize = 0;
        while index < values.len()
            invariant
                index <= values@.len(),
                copies@.len() == index,
                forall|k: int|
                    0 <= k < index ==> copies@[k] == copy::Copy::<T>::holding(values@[k]),
            decreases values@.len() - index,
        {
            copies.push(copy::Copy::<T>::new(values[index]));
            index = index + 1;
        }
        assert(copies@ =~= values@.map_values(|value: T::Memory| copy::Copy::<T>::holding(value)));
        Ok(copies)
    }
}

/// A sequence of exactly `N` elements.
pub trait SizedArray<T, const N: usize>: Array<T> {
    /// The number of elements.
    fn len(&self) -> (len: usize)
        ensures
            len == N,
    {
        N
    }
}

/// A pointer to a sequence is that sequence, of unknown length.
impl<T> Array<T> for Ptr64<[T]> {
    open spec fn start_address_spec(&self) -> u64 {
        self.spec_address()
    }

    open spec fn len_spec(&self) -> Option<usize> {
        None
    }

    fn start_address(&self) -> (address: u64) {
        self.address()
    }

    fn known_len(&self) -> (len: Option<usize>) {
        None
    }
}

/// A pointer to `N` elements is a sequence of that length.
impl<T, const N: usize> Array<T> for Ptr64<[T; N]> {
    open spec fn start_address_spec(&self) -> u64 {
        self.spec_address()
    }

    open spec fn len_spec(&self) -> Option<usize> {
        Some(N)
    }

    fn start_address(&self) -> (address: u64) {
        self.address()
    }

    fn known_len(&self) -> (len: Option<usize>) {
        Some(N)
    }
}

impl<T, const N: usize> SizedArray<T, N> for Ptr64<[T; N]> {

}

} // verus!
